//! Laws of the engine, proved over the mathematical interpreter: what the pass
//! guarantees of the nodes it creates, of overflow clamping, of casts, of
//! destructuring, of call splices and their fallback, and of rendering.

use vstd::prelude::*;
use crate::model::{ConstVal, Instr, Op, VarType};
use crate::node::{
    all_const, render_kids, spec_is_const, spec_op_name, spec_render, TreeN, ValM,
};
use crate::bounds::{spec_uint_constant, spec_uint_max, is_clamped_binop};
use crate::builder::{
    init_table, insert_call_dsts, insert_unpack_dsts, step_call, step_table, BuildCtx,
};

verus! {

/// A literal node created by a load instruction is constant and its bound is
/// the literal's exact value.
pub proof fn lemma_constant_node(
    t: Map<int, TreeN>,
    dst: usize,
    c: ConstVal,
    types: Seq<VarType>,
    ctx: BuildCtx,
    built: Seq<Map<int, TreeN>>,
)
    ensures
        step_table(t, Instr::Load(dst, c), types, ctx, built) is Some,
        step_table(t, Instr::Load(dst, c), types, ctx, built).unwrap()[dst as int].cst == true,
        step_table(t, Instr::Load(dst, c), types, ctx, built).unwrap()[dst as int].max
            == spec_uint_constant(c),
{
}

/// A parameter leaf is never constant, and its bound is its declared type's
/// maximum (absent for non-integer types).
pub proof fn lemma_param_leaf(types: Seq<VarType>, pc: int, s: int)
    requires
        0 <= s < pc,
    ensures
        init_table(types, pc).contains_key(s),
        init_table(types, pc)[s].cst == false,
        init_table(types, pc)[s].max == spec_uint_max(types[s]),
        init_table(types, pc)[s].kids.len() == 0,
{
}

/// A clamped binary operator (addition, multiplication and the bit operators)
/// never yields a bound above the destination width's maximum, whatever the
/// operand bounds are.
pub proof fn lemma_clamped_step_bounded(
    t: Map<int, TreeN>,
    dsts: Seq<usize>,
    op: Op,
    srcs: Seq<usize>,
    types: Seq<VarType>,
    ctx: BuildCtx,
    built: Seq<Map<int, TreeN>>,
)
    requires
        is_clamped_binop(op),
        step_call(t, dsts, op, srcs, types, ctx, built) is Some,
    ensures
        step_call(t, dsts, op, srcs, types, ctx, built).unwrap()[dsts[0] as int].max.unwrap()
            <= spec_uint_max(types[dsts[0] as int]).unwrap(),
{
    let ln = t[srcs[0] as int];
    let rn = t[srcs[1] as int];
    let tymax = spec_uint_max(types[dsts[0] as int]);
    crate::bounds::lemma_clamped_result_bounded(
        op,
        ln.max.unwrap(),
        rn.max.unwrap(),
        ln.cst,
        rn.cst,
        tymax.unwrap(),
    );
}

/// A cast never yields a bound above the destination width's maximum, even
/// when the source bound is larger.
pub proof fn lemma_cast_step_bounded(
    t: Map<int, TreeN>,
    dsts: Seq<usize>,
    w: crate::model::Width,
    srcs: Seq<usize>,
    types: Seq<VarType>,
    ctx: BuildCtx,
    built: Seq<Map<int, TreeN>>,
)
    requires
        step_call(t, dsts, Op::Cast(w), srcs, types, ctx, built) is Some,
    ensures
        step_call(t, dsts, Op::Cast(w), srcs, types, ctx, built).unwrap()[dsts[0] as int]
            .max.unwrap() <= spec_uint_max(types[dsts[0] as int]).unwrap(),
{
}

/// Constant-foldability of a sequence of trees is the conjunction of the
/// members' foldability.
pub proof fn lemma_all_const_elements(s: Seq<TreeN>)
    ensures
        all_const(s, 0) <==> (forall|i: int| 0 <= i < s.len() ==> spec_is_const(s[i])),
{
    lemma_all_const_from(s, 0);
}

pub proof fn lemma_all_const_from(s: Seq<TreeN>, k: int)
    requires
        0 <= k <= s.len(),
    ensures
        all_const(s, k) <==> (forall|i: int| k <= i < s.len() ==> spec_is_const(s[i])),
    decreases s.len() - k,
{
    if k < s.len() {
        lemma_all_const_from(s, k + 1);
    }
}

/// Every destination of a call takes the same resolved dependency list as its
/// children, its declared type's maximum as bound, and is never flagged
/// constant — so the foldability query on it is exactly the foldability of the
/// resolved inputs. With the argument fallback those inputs are the caller's
/// own argument nodes, so constancy propagates from the arguments; with a
/// splice they are the callee's return-value nodes.
pub proof fn lemma_call_dsts_trees(
    t: Map<int, TreeN>,
    dsts: Seq<usize>,
    op: Op,
    srcs: Seq<usize>,
    types: Seq<VarType>,
    kids: Seq<TreeN>,
    i: int,
)
    requires
        0 <= i <= dsts.len(),
        insert_call_dsts(t, dsts, op, srcs, types, kids, i) is Some,
        forall|a: int, b: int| 0 <= a < b < dsts.len() ==> dsts[a] != dsts[b],
    ensures
        forall|x: int| #![trigger dsts[x]] i <= x < dsts.len() ==> {
            let r = insert_call_dsts(t, dsts, op, srcs, types, kids, i).unwrap();
            &&& r.contains_key(dsts[x] as int)
            &&& r[dsts[x] as int] == (TreeN {
                val: ValM::MCall { op, srcs },
                max: spec_uint_max(types[dsts[x] as int]),
                cst: false,
                kids,
            })
            &&& spec_is_const(r[dsts[x] as int]) == all_const(kids, 0)
        },
        forall|k: int| #![trigger t.contains_key(k)] (forall|x: int| #![trigger dsts[x]] i <= x
            < dsts.len() ==> dsts[x] as int != k) ==> {
            let r = insert_call_dsts(t, dsts, op, srcs, types, kids, i).unwrap();
            &&& r.contains_key(k) == t.contains_key(k)
            &&& (t.contains_key(k) ==> r[k] == t[k])
        },
    decreases dsts.len() - i,
{
    if i < dsts.len() {
        let tree_i = TreeN {
            val: ValM::MCall { op, srcs },
            max: spec_uint_max(types[dsts[i] as int]),
            cst: false,
            kids,
        };
        let t2 = t.insert(dsts[i] as int, tree_i);
        lemma_call_dsts_trees(t2, dsts, op, srcs, types, kids, i + 1);
        let r = insert_call_dsts(t, dsts, op, srcs, types, kids, i).unwrap();
        assert forall|x: int| #![trigger dsts[x]] i <= x < dsts.len() implies {
            &&& r.contains_key(dsts[x] as int)
            &&& r[dsts[x] as int] == (TreeN {
                val: ValM::MCall { op, srcs },
                max: spec_uint_max(types[dsts[x] as int]),
                cst: false,
                kids,
            })
            &&& spec_is_const(r[dsts[x] as int]) == all_const(kids, 0)
        } by {
            if x == i {
                assert forall|y: int| #![trigger dsts[y]] i + 1 <= y < dsts.len() implies dsts[y]
                    as int != dsts[i] as int by {
                    assert(dsts[i] != dsts[y]);
                }
                assert(t2.contains_key(dsts[i] as int) && t2[dsts[i] as int] == tree_i);
            }
        }
        assert forall|k: int| #![trigger t.contains_key(k)] (forall|x: int| #![trigger dsts[x]] i
            <= x < dsts.len() ==> dsts[x] as int != k) implies {
            &&& r.contains_key(k) == t.contains_key(k)
            &&& (t.contains_key(k) ==> r[k] == t[k])
        } by {
            assert(dsts[i] as int != k);
            assert(t2.contains_key(k) == t.contains_key(k));
        }
    }
}

/// Destructuring after construction recovers the per-field bounds exactly when
/// the arity matches: each output takes the corresponding child's bound when
/// that bound is present, else its declared type's maximum; and every output's
/// single child is the shared source node.
pub proof fn lemma_unpack_recovers_bounds(
    t: Map<int, TreeN>,
    dsts: Seq<usize>,
    op: Op,
    srcs: Seq<usize>,
    types: Seq<VarType>,
    node: TreeN,
    i: int,
)
    requires
        0 <= i <= dsts.len(),
        insert_unpack_dsts(t, dsts, op, srcs, types, node, i) is Some,
        forall|a: int, b: int| 0 <= a < b < dsts.len() ==> dsts[a] != dsts[b],
    ensures
        forall|x: int| #![trigger dsts[x]] i <= x < dsts.len() ==> {
            let r = insert_unpack_dsts(t, dsts, op, srcs, types, node, i).unwrap();
            &&& r.contains_key(dsts[x] as int)
            &&& r[dsts[x] as int].kids == seq![node]
            &&& r[dsts[x] as int].cst == false
            &&& r[dsts[x] as int].max == (if node.kids.len() == dsts.len() {
                if node.kids[x].max is None {
                    spec_uint_max(types[dsts[x] as int])
                } else {
                    node.kids[x].max
                }
            } else {
                spec_uint_max(types[dsts[x] as int])
            })
        },
        forall|k: int| #![trigger t.contains_key(k)] (forall|x: int| #![trigger dsts[x]] i <= x
            < dsts.len() ==> dsts[x] as int != k) ==> {
            let r = insert_unpack_dsts(t, dsts, op, srcs, types, node, i).unwrap();
            &&& r.contains_key(k) == t.contains_key(k)
            &&& (t.contains_key(k) ==> r[k] == t[k])
        },
    decreases dsts.len() - i,
{
    if i < dsts.len() {
        let m = if node.kids.len() == dsts.len() {
            if node.kids[i].max is None {
                spec_uint_max(types[dsts[i] as int])
            } else {
                node.kids[i].max
            }
        } else {
            spec_uint_max(types[dsts[i] as int])
        };
        let tree_i = TreeN { val: ValM::MCall { op, srcs }, max: m, cst: false, kids: seq![node] };
        let t2 = t.insert(dsts[i] as int, tree_i);
        lemma_unpack_recovers_bounds(t2, dsts, op, srcs, types, node, i + 1);
        let r = insert_unpack_dsts(t, dsts, op, srcs, types, node, i).unwrap();
        assert forall|x: int| #![trigger dsts[x]] i <= x < dsts.len() implies {
            &&& r.contains_key(dsts[x] as int)
            &&& r[dsts[x] as int].kids == seq![node]
            &&& r[dsts[x] as int].cst == false
            &&& r[dsts[x] as int].max == (if node.kids.len() == dsts.len() {
                if node.kids[x].max is None {
                    spec_uint_max(types[dsts[x] as int])
                } else {
                    node.kids[x].max
                }
            } else {
                spec_uint_max(types[dsts[x] as int])
            })
        } by {
            if x == i {
                assert forall|y: int| #![trigger dsts[y]] i + 1 <= y < dsts.len() implies dsts[y]
                    as int != dsts[i] as int by {
                    assert(dsts[i] != dsts[y]);
                }
                assert(t2.contains_key(dsts[i] as int) && t2[dsts[i] as int] == tree_i);
            }
        }
        assert forall|k: int| #![trigger t.contains_key(k)] (forall|x: int| #![trigger dsts[x]] i
            <= x < dsts.len() ==> dsts[x] as int != k) implies {
            &&& r.contains_key(k) == t.contains_key(k)
            &&& (t.contains_key(k) ==> r[k] == t[k])
        } by {
            assert(dsts[i] as int != k);
            assert(t2.contains_key(k) == t.contains_key(k));
        }
    }
}

/// The textual form of an operation node opens with the operator's name and
/// renders the children in order: the rendering preserves operator name and
/// child order.
pub proof fn lemma_render_operation(t: TreeN, op: Op, srcs: Seq<usize>)
    requires
        t.val == (ValM::MCall { op, srcs }),
    ensures
        spec_render(t) == spec_op_name(op) + "("@ + render_kids(t.kids, 0) + ")"@,
{
}


// ---------------------------------------------------------------------------
// The node invariant of built tables
// ---------------------------------------------------------------------------

/// The structural invariant of every tree the pass creates: a literal node is
/// constant and carries the literal's exact value as bound; a parameter leaf
/// is never constant; both are childless; an assignment node has a child and
/// is never flagged constant; a local-borrow node records its source slot; and
/// the same holds of every child.
pub open spec fn node_inv(t: TreeN) -> bool
    decreases t, 0int,
{
    all_inv(t.kids, 0) && match t.val {
        ValM::MConst(c) => t.cst == true && t.max == spec_uint_constant(c) && t.kids.len() == 0,
        ValM::MParam(_) => t.cst == false && t.kids.len() == 0,
        ValM::MAssign { .. } => t.kids.len() >= 1 && t.cst == false,
        ValM::MCall { op: Op::BorrowLoc, srcs } => srcs.len() >= 1,
        _ => true,
    }
}

pub open spec fn all_inv(s: Seq<TreeN>, k: int) -> bool
    decreases s, s.len() - k,
{
    if k < 0 || k >= s.len() {
        true
    } else {
        node_inv(s[k]) && all_inv(s, k + 1)
    }
}

pub proof fn lemma_all_inv_elements(s: Seq<TreeN>)
    ensures
        all_inv(s, 0) <==> (forall|i: int| 0 <= i < s.len() ==> node_inv(s[i])),
{
    lemma_all_inv_from(s, 0);
}

pub proof fn lemma_all_inv_from(s: Seq<TreeN>, k: int)
    requires
        0 <= k <= s.len(),
    ensures
        all_inv(s, k) <==> (forall|i: int| k <= i < s.len() ==> node_inv(s[i])),
    decreases s.len() - k,
{
    if k < s.len() {
        lemma_all_inv_from(s, k + 1);
    }
}

/// The invariant implies structural well-formedness, so every query operation
/// is applicable to a built tree.
pub proof fn lemma_node_inv_twf(t: TreeN)
    requires
        node_inv(t),
    ensures
        crate::node::twf(t),
    decreases t,
{
    lemma_all_inv_elements(t.kids);
    crate::node::lemma_all_twf(t.kids);
    assert forall|i: int| 0 <= i < t.kids.len() implies crate::node::twf(t.kids[i]) by {
        lemma_node_inv_twf(t.kids[i]);
    }
}

/// Every defined slot of a table holds an invariant tree.
pub open spec fn table_inv(m: Map<int, TreeN>) -> bool {
    forall|s: int| #[trigger] m.contains_key(s) ==> node_inv(m[s])
}

pub open spec fn tabs_inv(ts: Seq<Map<int, TreeN>>) -> bool {
    forall|i: int| 0 <= i < ts.len() ==> table_inv(#[trigger] ts[i])
}

/// All tables of the already analyzed modules hold invariant trees.
pub open spec fn ctx_inv(ctx: BuildCtx) -> bool {
    forall|i: int, j: int| 0 <= i < ctx.others.len() && 0 <= j
        < ctx.others[i].data_dependency@.len() ==> table_inv(
        #[trigger] ctx.others[i].data_dependency@[j]@,
    )
}


pub proof fn lemma_all_inv_single(a: TreeN)
    requires
        node_inv(a),
    ensures
        all_inv(seq![a], 0),
{
    assert(seq![a][0] == a);
    assert(all_inv(seq![a], 1));
}

pub proof fn lemma_all_inv_pair(a: TreeN, b: TreeN)
    requires
        node_inv(a),
        node_inv(b),
    ensures
        all_inv(seq![a, b], 0),
{
    assert(seq![a, b][0] == a);
    assert(seq![a, b][1] == b);
    assert(all_inv(seq![a, b], 2));
    assert(all_inv(seq![a, b], 1));
}

pub proof fn lemma_slots_kids_inv(t: Map<int, TreeN>, ss: Seq<usize>)
    requires
        crate::builder::slots_kids(t, ss, 0) is Some,
        table_inv(t),
    ensures
        all_inv(crate::builder::slots_kids(t, ss, 0).unwrap(), 0),
{
    crate::builder::lemma_slots_kids(t, ss, 0);
    let kids = crate::builder::slots_kids(t, ss, 0).unwrap();
    lemma_all_inv_elements(kids);
    assert forall|i: int| 0 <= i < kids.len() implies node_inv(kids[i]) by {
        assert(t.contains_key(ss[i] as int));
    }
}

/// The resolved dependency inputs of a call are invariant trees, whether they
/// were spliced from another module, from an earlier function of this module,
/// or taken from the caller's own arguments.
pub proof fn lemma_resolve_inv(
    ctx: BuildCtx,
    built: Seq<Map<int, TreeN>>,
    t: Map<int, TreeN>,
    mid: usize,
    fid: usize,
    srcs: Seq<usize>,
)
    requires
        crate::builder::resolve_call_kids(ctx, built, t, mid, fid, srcs) is Some,
        table_inv(t),
        tabs_inv(built),
        ctx_inv(ctx),
    ensures
        all_inv(crate::builder::resolve_call_kids(ctx, built, t, mid, fid, srcs).unwrap(), 0),
{
    if mid != 0 {
        match crate::builder::find_module(ctx.others, ctx.names[mid as int]@, 0) {
            Option::Some(oi) => {
                lemma_find_module_in_range(ctx.others, ctx.names[mid as int]@, 0);
                let o = ctx.others[oi];
                match crate::builder::find_def(o.function_idx_to_id@, fid, 0) {
                    Option::Some(di) => {
                        lemma_find_def_in_range(o.function_idx_to_id@, fid, 0);
                        if di < o.functions@.len() && di < o.data_dependency@.len() {
                            let cf = o.functions@[di];
                            if cf.code@.len() >= 1 {
                                match cf.code@[cf.code@.len() - 1] {
                                    Instr::Ret(rets) => {
                                        assert(table_inv(o.data_dependency@[di]@));
                                        lemma_slots_kids_inv(o.data_dependency@[di]@, rets@);
                                    },
                                    _ => {
                                        lemma_slots_kids_inv(t, srcs);
                                    },
                                }
                            } else {
                                lemma_slots_kids_inv(t, srcs);
                            }
                        } else {
                            lemma_slots_kids_inv(t, srcs);
                        }
                    },
                    Option::None => {
                        lemma_slots_kids_inv(t, srcs);
                    },
                }
            },
            Option::None => {
                lemma_slots_kids_inv(t, srcs);
            },
        }
    } else {
        match crate::builder::find_def(ctx.ids, fid, 0) {
            Option::Some(di) => {
                lemma_find_def_in_range(ctx.ids, fid, 0);
                if di < built.len() && di < ctx.funcs.len() {
                    let cf = ctx.funcs[di];
                    if cf.code@.len() >= 1 {
                        match cf.code@[cf.code@.len() - 1] {
                            Instr::Ret(rets) => {
                                assert(table_inv(built[di]));
                                lemma_slots_kids_inv(built[di], rets@);
                            },
                            _ => {
                                lemma_slots_kids_inv(t, srcs);
                            },
                        }
                    } else {
                        lemma_slots_kids_inv(t, srcs);
                    }
                } else {
                    lemma_slots_kids_inv(t, srcs);
                }
            },
            Option::None => {
                lemma_slots_kids_inv(t, srcs);
            },
        }
    }
}

pub proof fn lemma_find_module_in_range(
    os: Seq<crate::builder::StacklessBytecodeGenerator>,
    name: Seq<char>,
    k: int,
)
    requires
        0 <= k,
        crate::builder::find_module(os, name, k) is Some,
    ensures
        k <= crate::builder::find_module(os, name, k).unwrap() < os.len(),
    decreases os.len() - k,
{
    if k < os.len() && crate::builder::find_module(os, name, k) != Option::Some(k) {
        lemma_find_module_in_range(os, name, k + 1);
    }
}

pub proof fn lemma_find_def_in_range(ids: Seq<usize>, fid: usize, k: int)
    requires
        0 <= k,
        crate::builder::find_def(ids, fid, k) is Some,
    ensures
        k <= crate::builder::find_def(ids, fid, k).unwrap() < ids.len(),
    decreases ids.len() - k,
{
    if k < ids.len() && crate::builder::find_def(ids, fid, k) != Option::Some(k) {
        lemma_find_def_in_range(ids, fid, k + 1);
    }
}

pub proof fn lemma_insert_call_dsts_inv(
    t: Map<int, TreeN>,
    dsts: Seq<usize>,
    op: Op,
    srcs: Seq<usize>,
    types: Seq<VarType>,
    kids: Seq<TreeN>,
    i: int,
)
    requires
        0 <= i <= dsts.len(),
        insert_call_dsts(t, dsts, op, srcs, types, kids, i) is Some,
        table_inv(t),
        all_inv(kids, 0),
        op is BorrowLoc ==> srcs.len() >= 1,
    ensures
        table_inv(insert_call_dsts(t, dsts, op, srcs, types, kids, i).unwrap()),
    decreases dsts.len() - i,
{
    if i < dsts.len() {
        let tree_i = TreeN {
            val: ValM::MCall { op, srcs },
            max: spec_uint_max(types[dsts[i] as int]),
            cst: false,
            kids,
        };
        assert(node_inv(tree_i));
        let t2 = t.insert(dsts[i] as int, tree_i);
        assert(table_inv(t2));
        lemma_insert_call_dsts_inv(t2, dsts, op, srcs, types, kids, i + 1);
    }
}

pub proof fn lemma_insert_unpack_dsts_inv(
    t: Map<int, TreeN>,
    dsts: Seq<usize>,
    op: Op,
    srcs: Seq<usize>,
    types: Seq<VarType>,
    node: TreeN,
    i: int,
)
    requires
        0 <= i <= dsts.len(),
        insert_unpack_dsts(t, dsts, op, srcs, types, node, i) is Some,
        table_inv(t),
        node_inv(node),
        op is BorrowLoc ==> srcs.len() >= 1,
    ensures
        table_inv(insert_unpack_dsts(t, dsts, op, srcs, types, node, i).unwrap()),
    decreases dsts.len() - i,
{
    if i < dsts.len() {
        let m = if node.kids.len() == dsts.len() {
            if node.kids[i].max is None {
                spec_uint_max(types[dsts[i] as int])
            } else {
                node.kids[i].max
            }
        } else {
            spec_uint_max(types[dsts[i] as int])
        };
        let tree_i = TreeN { val: ValM::MCall { op, srcs }, max: m, cst: false, kids: seq![node] };
        lemma_all_inv_single(node);
        assert(node_inv(tree_i));
        let t2 = t.insert(dsts[i] as int, tree_i);
        assert(table_inv(t2));
        lemma_insert_unpack_dsts_inv(t2, dsts, op, srcs, types, node, i + 1);
    }
}

/// One instruction preserves the invariant of the table.
pub proof fn lemma_step_inv(
    t: Map<int, TreeN>,
    instr: Instr,
    types: Seq<VarType>,
    ctx: BuildCtx,
    built: Seq<Map<int, TreeN>>,
)
    requires
        step_table(t, instr, types, ctx, built) is Some,
        table_inv(t),
        tabs_inv(built),
        ctx_inv(ctx),
    ensures
        table_inv(step_table(t, instr, types, ctx, built).unwrap()),
{
    match instr {
        Instr::Assign(dst, src, kind) => {
            assert(t.contains_key(src as int));
            let sn = t[src as int];
            let tree = TreeN {
                val: ValM::MAssign { src, kind },
                max: sn.max,
                cst: false,
                kids: seq![sn],
            };
            lemma_all_inv_single(sn);
            assert(node_inv(tree));
        },
        Instr::Load(dst, c) => {
            let tree = TreeN {
                val: ValM::MConst(c),
                max: spec_uint_constant(c),
                cst: true,
                kids: Seq::empty(),
            };
            assert(node_inv(tree));
        },
        Instr::Call(dsts, op, srcs) => {
            lemma_step_call_inv(t, dsts@, op, srcs@, types, ctx, built);
        },
        _ => {},
    }
}

pub proof fn lemma_step_call_inv(
    t: Map<int, TreeN>,
    dsts: Seq<usize>,
    op: Op,
    srcs: Seq<usize>,
    types: Seq<VarType>,
    ctx: BuildCtx,
    built: Seq<Map<int, TreeN>>,
)
    requires
        step_call(t, dsts, op, srcs, types, ctx, built) is Some,
        table_inv(t),
        tabs_inv(built),
        ctx_inv(ctx),
    ensures
        table_inv(step_call(t, dsts, op, srcs, types, ctx, built).unwrap()),
{
    match op {
        Op::Function(mid, fid) => {
            lemma_resolve_inv(ctx, built, t, mid, fid, srcs);
            let kids = crate::builder::resolve_call_kids(ctx, built, t, mid, fid, srcs).unwrap();
            lemma_insert_call_dsts_inv(t, dsts, op, srcs, types, kids, 0);
        },
        Op::Add | Op::Sub | Op::Mul | Op::Div | Op::Mod | Op::BitOr | Op::BitAnd | Op::Xor
            | Op::Shl | Op::Shr => {
            assert(t.contains_key(srcs[0] as int) && t.contains_key(srcs[1] as int));
            let ln = t[srcs[0] as int];
            let rn = t[srcs[1] as int];
            lemma_all_inv_pair(ln, rn);
        },
        Op::Lt | Op::Gt | Op::Le | Op::Ge | Op::Or | Op::And | Op::Eq | Op::Neq => {
            assert(t.contains_key(srcs[0] as int) && t.contains_key(srcs[1] as int));
            let ln = t[srcs[0] as int];
            let rn = t[srcs[1] as int];
            lemma_all_inv_pair(ln, rn);
        },
        Op::Cast(_) => {
            assert(t.contains_key(srcs[0] as int));
            let n = t[srcs[0] as int];
            lemma_all_inv_single(n);
        },
        Op::Not => {
            assert(t.contains_key(srcs[0] as int));
            let n = t[srcs[0] as int];
            lemma_all_inv_single(n);
        },
        Op::Pack(_, _) => {
            lemma_slots_kids_inv(t, srcs);
        },
        Op::Unpack(_, _) => {
            assert(t.contains_key(srcs[0] as int));
            let n = t[srcs[0] as int];
            lemma_insert_unpack_dsts_inv(t, dsts, op, srcs, types, n, 0);
        },
        Op::Exists | Op::FreezeRef | Op::BorrowField | Op::BorrowLoc | Op::ReadRef
            | Op::BorrowGlobal | Op::MoveFrom => {
            assert(t.contains_key(srcs[0] as int));
            let n = t[srcs[0] as int];
            lemma_all_inv_single(n);
        },
        _ => {},
    }
}

pub proof fn lemma_run_code_inv(
    t: Map<int, TreeN>,
    code: Seq<Instr>,
    k: int,
    types: Seq<VarType>,
    ctx: BuildCtx,
    built: Seq<Map<int, TreeN>>,
)
    requires
        crate::builder::run_code(t, code, k, types, ctx, built) is Some,
        table_inv(t),
        tabs_inv(built),
        ctx_inv(ctx),
    ensures
        table_inv(crate::builder::run_code(t, code, k, types, ctx, built).unwrap()),
    decreases code.len() - k,
{
    if 0 <= k < code.len() {
        lemma_step_inv(t, code[k], types, ctx, built);
        let t2 = step_table(t, code[k], types, ctx, built).unwrap();
        lemma_run_code_inv(t2, code, k + 1, types, ctx, built);
    }
}

/// The table of one function holds only invariant trees.
pub proof fn lemma_build_fn_inv(
    f: crate::model::FunctionInfo,
    ctx: BuildCtx,
    built: Seq<Map<int, TreeN>>,
)
    requires
        crate::builder::spec_build_fn(f, ctx, built) is Some,
        tabs_inv(built),
        ctx_inv(ctx),
    ensures
        table_inv(crate::builder::spec_build_fn(f, ctx, built).unwrap()),
{
    let t0 = init_table(f.local_types@, f.param_count as int);
    assert(table_inv(t0));
    lemma_run_code_inv(t0, f.code@, 0, f.local_types@, ctx, built);
}

/// Every table the pass builds holds only invariant trees: literal nodes are
/// constant with their exact value as bound, parameter leaves are never
/// constant, and every tree is well formed for the query operations — given
/// that the already analyzed modules' tables are invariant too.
pub proof fn lemma_build_module_inv(ctx: BuildCtx, k: int, built: Seq<Map<int, TreeN>>)
    requires
        crate::builder::spec_build_module(ctx, k, built) is Some,
        tabs_inv(built),
        ctx_inv(ctx),
    ensures
        tabs_inv(crate::builder::spec_build_module(ctx, k, built).unwrap()),
    decreases ctx.funcs.len() - k,
{
    if 0 <= k < ctx.funcs.len() {
        lemma_build_fn_inv(ctx.funcs[k], ctx, built);
        let tab = crate::builder::spec_build_fn(ctx.funcs[k], ctx, built).unwrap();
        assert(tabs_inv(built.push(tab)));
        lemma_build_module_inv(ctx, k + 1, built.push(tab));
    }
}


/// The tables the pass computes for a module hold only invariant trees,
/// whenever the already analyzed modules' tables do: in every built tree every
/// literal node is constant and carries its exact value as bound, and every
/// parameter leaf is non-constant.
pub proof fn lemma_module_tables_inv(ctx: BuildCtx)
    requires
        crate::builder::spec_build_module(ctx, 0, Seq::empty()) is Some,
        ctx_inv(ctx),
    ensures
        tabs_inv(crate::builder::spec_build_module(ctx, 0, Seq::empty()).unwrap()),
{
    lemma_build_module_inv(ctx, 0, Seq::empty());
}

} // verus!


