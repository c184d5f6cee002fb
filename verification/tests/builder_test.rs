use ethnum::U256;
use move_dep_bounds::builder::StacklessBytecodeGenerator;
use move_dep_bounds::model::{
    AssignKind, ConstVal, FunctionInfo, Instr, Op, VarType, Visibility, Width,
};
use move_dep_bounds::node::Val;

fn u(x: u128) -> U256 {
    U256([x, 0])
}

fn func(name: &str, param_count: usize, local_types: Vec<VarType>, code: Vec<Instr>) -> FunctionInfo {
    let n = local_types.len();
    FunctionInfo {
        name: name.to_string(),
        visibility: Visibility::Private,
        is_native: false,
        param_count,
        local_types,
        local_names: (0..n).map(|i| format!("l{}", i)).collect(),
        code,
    }
}

fn gen(name: &str, functions: Vec<FunctionInfo>) -> StacklessBytecodeGenerator {
    let n = functions.len();
    StacklessBytecodeGenerator {
        module_names: vec![name.to_string()],
        functions,
        function_idx_to_id: (0..n).collect(),
        symbols: Vec::new(),
        structs: Vec::new(),
        data_dependency: Vec::new(),
    }
}

fn u8t() -> VarType {
    VarType::Uint(Width::W8)
}

fn u64t() -> VarType {
    VarType::Uint(Width::W64)
}

fn load(dst: usize, w: Width, v: u128) -> Instr {
    Instr::Load(dst, ConstVal::Uint(w, u(v)))
}

#[test]
fn signer_parameter_gives_one_unbounded_nonconstant_leaf() {
    // f(x: &signer) with no arithmetic: one entry, a parameter leaf, bound
    // absent, constant false
    let f = func(
        "f",
        1,
        vec![VarType::Ref(false, Box::new(VarType::Signer))],
        vec![],
    );
    let mut g = gen("m", vec![f]);
    g.get_data_dependency(&Vec::new());
    assert_eq!(g.data_dependency.len(), 1);
    let table = &g.data_dependency[0];
    let defined: Vec<usize> = (0..table.data.len()).filter(|&s| table.data[s].is_some()).collect();
    assert_eq!(defined, vec![0]);
    let node = table.get(0);
    assert!(matches!(node.value, Val::ParamType(_)));
    assert!(node.max.is_none());
    assert!(!node.is_constant);
}

#[test]
fn add_of_u8_constants_clamps_at_width_max() {
    let f = func(
        "f",
        0,
        vec![u8t(), u8t(), u8t()],
        vec![
            load(0, Width::W8, 255),
            load(1, Width::W8, 255),
            Instr::Call(vec![2], Op::Add, vec![0, 1]),
        ],
    );
    let mut g = gen("m", vec![f]);
    g.get_data_dependency(&Vec::new());
    let node = g.data_dependency[0].get(2);
    assert_eq!(node.max.unwrap(), u(255));
    assert!(node.is_constant);
    assert!(node.is_const());
}

#[test]
fn cast_to_narrower_width_clamps_the_bound() {
    let f = func(
        "f",
        0,
        vec![u64t(), u8t()],
        vec![
            load(0, Width::W64, 1000),
            Instr::Call(vec![1], Op::Cast(Width::W8), vec![0]),
        ],
    );
    let mut g = gen("m", vec![f]);
    g.get_data_dependency(&Vec::new());
    let node = g.data_dependency[0].get(1);
    assert_eq!(node.max.unwrap(), u(255));
    assert!(node.is_constant);
}

#[test]
fn mod_by_constant_bounds_below_the_divisor() {
    // the left operand is a parameter (non-constant), the right is 10
    let f = func(
        "f",
        1,
        vec![u64t(), u64t(), u64t()],
        vec![
            load(1, Width::W64, 10),
            Instr::Call(vec![2], Op::Mod, vec![0, 1]),
        ],
    );
    let mut g = gen("m", vec![f]);
    g.get_data_dependency(&Vec::new());
    let node = g.data_dependency[0].get(2);
    assert_eq!(node.max.unwrap(), u(9));
    assert!(!node.is_constant);
}

#[test]
fn unpack_after_pack_recovers_per_field_bounds() {
    // pack three fields with bounds {10, absent, 5}; unpack into locals of
    // declared types {u8, u64, u8}: bounds {10, u64 max, 5} in order
    let f = func(
        "f",
        0,
        vec![u8t(), VarType::Bool, u8t(), VarType::Other, u8t(), u64t(), u8t()],
        vec![
            load(0, Width::W8, 10),
            Instr::Load(1, ConstVal::Bool(true)),
            load(2, Width::W8, 5),
            Instr::Call(vec![3], Op::Pack(0, 0), vec![0, 1, 2]),
            Instr::Call(vec![4, 5, 6], Op::Unpack(0, 0), vec![3]),
        ],
    );
    let mut g = gen("m", vec![f]);
    g.get_data_dependency(&Vec::new());
    let t = &g.data_dependency[0];
    assert_eq!(t.get(4).max.unwrap(), u(10));
    assert_eq!(t.get(5).max.unwrap(), u(18446744073709551615));
    assert_eq!(t.get(6).max.unwrap(), u(5));
    // every output's single child is the shared pack source
    assert_eq!(t.get(4).subnodes.len(), 1);
    assert!(matches!(
        t.get(4).subnodes[0].value,
        Val::ByteCode(Op::Pack(_, _), _)
    ));
}

#[test]
fn unpack_with_mismatched_arity_falls_back_to_type_max() {
    let f = func(
        "f",
        0,
        vec![u8t(), VarType::Other, u8t(), u8t()],
        vec![
            load(0, Width::W8, 10),
            Instr::Call(vec![1], Op::Pack(0, 0), vec![0]),
            Instr::Call(vec![2, 3], Op::Unpack(0, 0), vec![1]),
        ],
    );
    let mut g = gen("m", vec![f]);
    g.get_data_dependency(&Vec::new());
    let t = &g.data_dependency[0];
    assert_eq!(t.get(2).max.unwrap(), u(255));
    assert_eq!(t.get(3).max.unwrap(), u(255));
}

#[test]
fn cross_module_splice_takes_callee_return_dependencies() {
    // module b: callee loads the constant 42 and returns it
    let callee = func(
        "callee",
        0,
        vec![u64t()],
        vec![load(0, Width::W64, 42), Instr::Ret(vec![0])],
    );
    let mut gb = gen("b", vec![callee]);
    gb.get_data_dependency(&Vec::new());

    // module a: calls into module b (module handle 1 names "b")
    let caller = func(
        "caller",
        0,
        vec![u64t()],
        vec![Instr::Call(vec![0], Op::Function(1, 0), vec![])],
    );
    let mut ga = gen("a", vec![caller]);
    ga.module_names.push("b".to_string());
    let others = vec![gb];
    ga.get_data_dependency(&others);

    let node = ga.data_dependency[0].get(0);
    // the destination node wraps the callee's return-value node
    assert_eq!(node.subnodes.len(), 1);
    assert_eq!(node.subnodes[0].max.unwrap(), u(42));
    assert!(node.subnodes[0].is_constant);
    // constancy is visible through the foldability query
    assert!(node.is_const());
    // the destination's own bound is its declared type's maximum
    assert_eq!(node.max.unwrap(), u(18446744073709551615));
    assert!(!node.is_constant);
}

#[test]
fn local_splice_takes_earlier_function_return_dependencies() {
    let callee = func(
        "callee",
        0,
        vec![u64t()],
        vec![load(0, Width::W64, 5), Instr::Ret(vec![0])],
    );
    let caller = func(
        "caller",
        0,
        vec![u64t()],
        vec![Instr::Call(vec![0], Op::Function(0, 0), vec![])],
    );
    let mut g = gen("m", vec![callee, caller]);
    g.get_data_dependency(&Vec::new());
    let node = g.data_dependency[1].get(0);
    assert_eq!(node.subnodes.len(), 1);
    assert_eq!(node.subnodes[0].max.unwrap(), u(5));
    assert!(node.is_const());
}

#[test]
fn unresolved_call_falls_back_to_argument_dependencies() {
    // the callee identity 99 resolves nowhere: the destination depends on the
    // caller's own arguments, so constancy propagates from them
    let f = func(
        "f",
        0,
        vec![u64t(), u64t()],
        vec![
            load(0, Width::W64, 7),
            Instr::Call(vec![1], Op::Function(0, 99), vec![0]),
        ],
    );
    let mut g = gen("m", vec![f]);
    g.get_data_dependency(&Vec::new());
    let node = g.data_dependency[0].get(1);
    assert_eq!(node.subnodes.len(), 1);
    assert_eq!(node.subnodes[0].max.unwrap(), u(7));
    assert!(node.is_const());
}

#[test]
fn unresolved_call_with_parameter_argument_is_not_constant() {
    let f = func(
        "f",
        1,
        vec![u64t(), u64t()],
        vec![Instr::Call(vec![1], Op::Function(0, 99), vec![0])],
    );
    let mut g = gen("m", vec![f]);
    g.get_data_dependency(&Vec::new());
    let node = g.data_dependency[0].get(1);
    assert!(!node.is_const());
}

#[test]
fn copy_assignment_is_a_transparent_passthrough() {
    let f = func(
        "f",
        0,
        vec![u64t(), u64t()],
        vec![
            load(0, Width::W64, 9),
            Instr::Assign(1, 0, AssignKind::CopyVal),
        ],
    );
    let mut g = gen("m", vec![f]);
    g.get_data_dependency(&Vec::new());
    let node = g.data_dependency[0].get(1);
    assert!(matches!(node.value, Val::AssIgn(0, AssignKind::CopyVal)));
    assert_eq!(node.max.unwrap(), u(9));
    assert!(!node.is_constant);
    assert!(node.is_const());
    let mut res = String::new();
    node.display(&mut res);
    assert_eq!(res, "9");
}

#[test]
fn comparison_results_are_untracked() {
    let f = func(
        "f",
        0,
        vec![u64t(), u64t(), VarType::Bool],
        vec![
            load(0, Width::W64, 1),
            load(1, Width::W64, 2),
            Instr::Call(vec![2], Op::Lt, vec![0, 1]),
        ],
    );
    let mut g = gen("m", vec![f]);
    g.get_data_dependency(&Vec::new());
    let node = g.data_dependency[0].get(2);
    assert!(node.max.is_none());
    assert!(!node.is_constant);
}
