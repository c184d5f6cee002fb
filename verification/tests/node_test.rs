use ethnum::U256;
use std::collections::VecDeque;
use move_dep_bounds::model::{AssignKind, ConstVal, Op, VarType, Width};
use move_dep_bounds::node::{Node, Val};

fn u(x: u128) -> U256 {
    U256([x, 0])
}

fn const_node(v: u128) -> Node {
    Node::new(
        Val::Const(ConstVal::Uint(Width::W64, u(v))),
        Some(u(v)),
        true,
    )
}

fn param_node(t: VarType, max: Option<U256>) -> Node {
    Node::new(Val::ParamType(t), max, false)
}

#[test]
fn constant_node_is_constant_with_exact_bound() {
    let n = const_node(5);
    assert!(n.is_const());
    assert!(n.is_constant);
    assert_eq!(n.max.unwrap(), u(5));
}

#[test]
fn parameter_leaf_is_never_constant() {
    let n = param_node(VarType::Uint(Width::W64), Some(U256([u128::MAX >> 64, 0])));
    assert!(!n.is_const());
    assert!(!n.is_constant);
}

#[test]
fn operation_of_constants_is_foldable() {
    let n = Node::new_with_binary_nodes(
        Val::ByteCode(Op::Add, vec![0, 1]),
        const_node(2),
        const_node(3),
        Some(u(5)),
        true,
    );
    assert!(n.is_const());
}

#[test]
fn operation_with_parameter_child_is_not_foldable() {
    let n = Node::new_with_binary_nodes(
        Val::ByteCode(Op::Add, vec![0, 1]),
        const_node(2),
        param_node(VarType::Uint(Width::W8), Some(u(255))),
        Some(u(255)),
        false,
    );
    assert!(!n.is_const());
}

#[test]
fn display_renders_operator_name_and_children_in_order() {
    let n = Node::new_with_binary_nodes(
        Val::ByteCode(Op::Add, vec![0, 1]),
        const_node(5),
        const_node(7),
        Some(u(12)),
        true,
    );
    let mut res = String::new();
    n.display(&mut res);
    assert_eq!(res, "Add(5, 7)");
}

#[test]
fn display_renders_decimal_constants() {
    let n = const_node(255);
    let mut res = String::new();
    n.display(&mut res);
    assert_eq!(res, "255");
}

#[test]
fn display_renders_large_constants_in_decimal() {
    let n = Node::new(
        Val::Const(ConstVal::Uint(Width::W256, U256::MAX)),
        Some(U256::MAX),
        true,
    );
    let mut res = String::new();
    n.display(&mut res);
    assert_eq!(
        res,
        "115792089237316195423570985008687907853269984665640564039457584007913129639935"
    );
}

#[test]
fn display_renders_parameter_type_names() {
    let n = param_node(
        VarType::Ref(false, Box::new(VarType::Signer)),
        None,
    );
    let mut res = String::new();
    n.display(&mut res);
    assert_eq!(res, "&signer");
}

#[test]
fn display_passthrough_is_transparent() {
    let inner = Node::new_with_binary_nodes(
        Val::ByteCode(Op::Mul, vec![0, 1]),
        const_node(2),
        const_node(3),
        Some(u(6)),
        true,
    );
    let wrapped = Node::new_with_node(
        Val::AssIgn(0, AssignKind::CopyVal),
        inner,
        Some(u(6)),
        false,
    );
    let mut res = String::new();
    wrapped.display(&mut res);
    assert_eq!(res, "Mul(2, 3)");
}

#[test]
fn display_nested_operations() {
    let inner = Node::new_with_binary_nodes(
        Val::ByteCode(Op::Mul, vec![0, 1]),
        const_node(2),
        const_node(3),
        Some(u(6)),
        true,
    );
    let outer = Node::new_with_binary_nodes(
        Val::ByteCode(Op::Add, vec![2, 3]),
        inner,
        const_node(4),
        Some(u(10)),
        true,
    );
    let mut res = String::new();
    outer.display(&mut res);
    assert_eq!(res, "Add(Mul(2, 3), 4)");
}

#[test]
fn loop_condition_collects_borrows_calls_and_copies() {
    let borrow = Node::new_with_node(
        Val::ByteCode(Op::BorrowLoc, vec![3]),
        const_node(0),
        Some(u(255)),
        false,
    );
    let assign = Node::new_with_node(
        Val::AssIgn(5, AssignKind::CopyVal),
        const_node(1),
        Some(u(1)),
        false,
    );
    let parent = Node::new_with_binary_nodes(
        Val::ByteCode(Op::Lt, vec![8, 9]),
        borrow,
        assign,
        None,
        false,
    );
    let mut conditions: Vec<usize> = Vec::new();
    let mut params: VecDeque<usize> = VecDeque::new();
    parent.loop_condition_from_copy(&mut conditions, &mut params);
    assert_eq!(conditions, vec![3, 5]);
    assert!(params.is_empty());
}

#[test]
fn loop_condition_collects_call_arguments() {
    let call = Node::new_with_node(
        Val::ByteCode(Op::Function(0, 7), vec![1, 2]),
        const_node(0),
        None,
        false,
    );
    let mut conditions: Vec<usize> = Vec::new();
    let mut params: VecDeque<usize> = VecDeque::new();
    call.loop_condition_from_copy(&mut conditions, &mut params);
    assert!(conditions.is_empty());
    assert_eq!(params, VecDeque::from(vec![1, 2]));
}

#[test]
fn loop_condition_skips_store_assignments() {
    let store = Node::new_with_node(
        Val::AssIgn(4, AssignKind::StoreVal),
        const_node(0),
        None,
        false,
    );
    let mut conditions: Vec<usize> = Vec::new();
    let mut params: VecDeque<usize> = VecDeque::new();
    store.loop_condition_from_copy(&mut conditions, &mut params);
    assert!(conditions.is_empty());
    assert!(params.is_empty());
}
