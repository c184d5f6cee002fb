//! The graph builder: one linear pass over each function's instruction
//! sequence, maintaining the per-function dependency table, with a limited
//! interprocedural splice of callee return-value summaries.
//!
//! The pass is specified by a mathematical interpreter over denoted trees:
//! `step_table` gives the table after one instruction (`None` marks a fatal
//! contract violation: a slot read before it is defined, or a missing bound
//! where an operator requires one), `run_code` folds a whole body, and
//! `spec_build_module` folds a whole module. `get_data_dependency` computes
//! exactly that fold.

use vstd::prelude::*;
use crate::model::{FunctionInfo, Instr, Op, StructInfo, VarType};
use crate::node::{
    clone_node, clone_nodes, clone_usizes, clone_var_type, lemma_trees_of, trees_of, Node, TreeN,
    Val, ValM,
};
use crate::table::DataDepent;
use crate::u256::u256_val;
use crate::bounds::{
    binary_operation_max, get_min_uint, get_uint_constant, get_uint_max, is_clamped_binop, omax,
    spec_binop, spec_min, spec_uint_constant, spec_uint_max,
};

verus! {

/// One analyzed module: its names, functions, symbol table, struct table, and
/// (once built) one dependency table per function in declaration order.
pub struct StacklessBytecodeGenerator {
    /// `module_names[0]` is this module's own name; a call operation's module
    /// handle indexes this list.
    pub module_names: Vec<String>,
    pub functions: Vec<FunctionInfo>,
    /// position: definition index; value: the function identity that call
    /// operations use.
    pub function_idx_to_id: Vec<usize>,
    /// interned names: a callee identity indexes its display name.
    pub symbols: Vec<String>,
    /// struct identities index this table.
    pub structs: Vec<StructInfo>,
    pub data_dependency: Vec<DataDepent>,
}

/// The build context of one module: the other, already analyzed modules and
/// this module's own resolution data.
pub struct BuildCtx {
    pub others: Seq<StacklessBytecodeGenerator>,
    pub names: Seq<String>,
    pub ids: Seq<usize>,
    pub funcs: Seq<FunctionInfo>,
}

pub open spec fn spec_ctx(
    others: Seq<StacklessBytecodeGenerator>,
    names: Seq<String>,
    ids: Seq<usize>,
    funcs: Seq<FunctionInfo>,
) -> BuildCtx {
    BuildCtx { others, names, ids, funcs }
}

/// Well-formedness of an already analyzed module: one table per function, one
/// identity per function, and a first module name to be looked up by.
pub open spec fn gen_wf(g: StacklessBytecodeGenerator) -> bool {
    &&& g.function_idx_to_id@.len() == g.functions@.len()
    &&& g.data_dependency@.len() == g.functions@.len()
    &&& g.module_names@.len() >= 1
}

pub open spec fn others_wf(os: Seq<StacklessBytecodeGenerator>) -> bool {
    forall|i: int| 0 <= i < os.len() ==> gen_wf(#[trigger] os[i])
}

/// The views of a list of tables.
pub open spec fn tables_of_from(s: Seq<DataDepent>, k: int) -> Seq<Map<int, TreeN>>
    decreases s.len() - k,
{
    if k < 0 || k >= s.len() {
        Seq::empty()
    } else {
        seq![s[k]@] + tables_of_from(s, k + 1)
    }
}

pub open spec fn tables_of(s: Seq<DataDepent>) -> Seq<Map<int, TreeN>> {
    tables_of_from(s, 0)
}

pub proof fn lemma_tables_of_from(s: Seq<DataDepent>, k: int)
    requires
        0 <= k <= s.len(),
    ensures
        tables_of_from(s, k).len() == s.len() - k,
        forall|i: int| k <= i < s.len() ==> tables_of_from(s, k)[i - k] == s[i]@,
    decreases s.len() - k,
{
    if k < s.len() {
        lemma_tables_of_from(s, k + 1);
    }
}

pub proof fn lemma_tables_of(s: Seq<DataDepent>)
    ensures
        tables_of(s).len() == s.len(),
        forall|i: int| 0 <= i < s.len() ==> tables_of(s)[i] == s[i]@,
{
    lemma_tables_of_from(s, 0);
}

/// The first position at or after `k` whose module's first name is `name`.
pub open spec fn find_module(
    os: Seq<StacklessBytecodeGenerator>,
    name: Seq<char>,
    k: int,
) -> Option<int>
    decreases os.len() - k,
{
    if k < 0 || k >= os.len() {
        Option::None
    } else if os[k].module_names@.len() >= 1 && os[k].module_names@[0]@ == name {
        Option::Some(k)
    } else {
        find_module(os, name, k + 1)
    }
}

/// The first definition index at or after `k` whose identity is `fid`.
pub open spec fn find_def(ids: Seq<usize>, fid: usize, k: int) -> Option<int>
    decreases ids.len() - k,
{
    if k < 0 || k >= ids.len() {
        Option::None
    } else if ids[k] == fid {
        Option::Some(k)
    } else {
        find_def(ids, fid, k + 1)
    }
}

/// The trees of the given slots of a table, in order; nothing if some slot is
/// undefined (a fatal lookup).
pub open spec fn slots_kids(t: Map<int, TreeN>, ss: Seq<usize>, k: int) -> Option<Seq<TreeN>>
    decreases ss.len() - k,
{
    if k < 0 || k >= ss.len() {
        Option::Some(Seq::empty())
    } else if t.contains_key(ss[k] as int) {
        match slots_kids(t, ss, k + 1) {
            Option::Some(rest) => Option::Some(seq![t[ss[k] as int]] + rest),
            Option::None => Option::None,
        }
    } else {
        Option::None
    }
}

pub proof fn lemma_slots_kids(t: Map<int, TreeN>, ss: Seq<usize>, k: int)
    requires
        0 <= k <= ss.len(),
        slots_kids(t, ss, k) is Some,
    ensures
        slots_kids(t, ss, k).unwrap().len() == ss.len() - k,
        forall|i: int| k <= i < ss.len() ==> t.contains_key(ss[i] as int) && slots_kids(
            t,
            ss,
            k,
        ).unwrap()[i - k] == t[ss[i] as int],
    decreases ss.len() - k,
{
    if k < ss.len() {
        lemma_slots_kids(t, ss, k + 1);
    }
}

/// Resolves the dependency inputs of a call, first match wins: a callee in a
/// different, already analyzed module whose last instruction returns values; a
/// callee of this module already processed whose last instruction returns
/// values; otherwise the call's own argument slots (the conservative degrade).
/// Nothing marks a fatal lookup.
pub open spec fn resolve_call_kids(
    ctx: BuildCtx,
    built: Seq<Map<int, TreeN>>,
    t: Map<int, TreeN>,
    mid: usize,
    fid: usize,
    srcs: Seq<usize>,
) -> Option<Seq<TreeN>> {
    if mid >= ctx.names.len() {
        Option::None
    } else if mid != 0 {
        match find_module(ctx.others, ctx.names[mid as int]@, 0) {
            Option::Some(oi) => {
                let o = ctx.others[oi];
                match find_def(o.function_idx_to_id@, fid, 0) {
                    Option::Some(di) => if di < o.functions@.len() && di
                        < o.data_dependency@.len() {
                        let cf = o.functions@[di];
                        if cf.code@.len() >= 1 {
                            match cf.code@[cf.code@.len() - 1] {
                                Instr::Ret(rets) => slots_kids(o.data_dependency@[di]@, rets@, 0),
                                _ => slots_kids(t, srcs, 0),
                            }
                        } else {
                            slots_kids(t, srcs, 0)
                        }
                    } else {
                        slots_kids(t, srcs, 0)
                    },
                    Option::None => slots_kids(t, srcs, 0),
                }
            },
            Option::None => slots_kids(t, srcs, 0),
        }
    } else {
        match find_def(ctx.ids, fid, 0) {
            Option::Some(di) => if di < built.len() && di < ctx.funcs.len() {
                let cf = ctx.funcs[di];
                if cf.code@.len() >= 1 {
                    match cf.code@[cf.code@.len() - 1] {
                        Instr::Ret(rets) => slots_kids(built[di], rets@, 0),
                        _ => slots_kids(t, srcs, 0),
                    }
                } else {
                    slots_kids(t, srcs, 0)
                }
            } else {
                slots_kids(t, srcs, 0)
            },
            Option::None => slots_kids(t, srcs, 0),
        }
    }
}

/// Inserts one call-result node per destination slot, all sharing `kids`;
/// bound: the destination's declared type maximum; never constant.
pub open spec fn insert_call_dsts(
    t: Map<int, TreeN>,
    dsts: Seq<usize>,
    op: Op,
    srcs: Seq<usize>,
    types: Seq<VarType>,
    kids: Seq<TreeN>,
    i: int,
) -> Option<Map<int, TreeN>>
    decreases dsts.len() - i,
{
    if i < 0 || i >= dsts.len() {
        Option::Some(t)
    } else if (dsts[i] as int) < types.len() {
        insert_call_dsts(
            t.insert(
                dsts[i] as int,
                TreeN {
                    val: ValM::MCall { op, srcs },
                    max: spec_uint_max(types[dsts[i] as int]),
                    cst: false,
                    kids,
                },
            ),
            dsts,
            op,
            srcs,
            types,
            kids,
            i + 1,
        )
    } else {
        Option::None
    }
}

/// Inserts one destructuring-result node per destination slot: when the source
/// node's child count matches the destination count, each output takes the
/// corresponding child's bound when present, else its declared type maximum;
/// on an arity mismatch every output takes its declared type maximum. Every
/// output's single child is the shared source node.
pub open spec fn insert_unpack_dsts(
    t: Map<int, TreeN>,
    dsts: Seq<usize>,
    op: Op,
    srcs: Seq<usize>,
    types: Seq<VarType>,
    node: TreeN,
    i: int,
) -> Option<Map<int, TreeN>>
    decreases dsts.len() - i,
{
    if i < 0 || i >= dsts.len() {
        Option::Some(t)
    } else if (dsts[i] as int) < types.len() {
        let m = if node.kids.len() == dsts.len() {
            if node.kids[i].max is None {
                spec_uint_max(types[dsts[i] as int])
            } else {
                node.kids[i].max
            }
        } else {
            spec_uint_max(types[dsts[i] as int])
        };
        insert_unpack_dsts(
            t.insert(
                dsts[i] as int,
                TreeN { val: ValM::MCall { op, srcs }, max: m, cst: false, kids: seq![node] },
            ),
            dsts,
            op,
            srcs,
            types,
            node,
            i + 1,
        )
    } else {
        Option::None
    }
}

/// The table after one call-form instruction.
pub open spec fn step_call(
    t: Map<int, TreeN>,
    dsts: Seq<usize>,
    op: Op,
    srcs: Seq<usize>,
    types: Seq<VarType>,
    ctx: BuildCtx,
    built: Seq<Map<int, TreeN>>,
) -> Option<Map<int, TreeN>> {
    match op {
        Op::Function(mid, fid) => match resolve_call_kids(ctx, built, t, mid, fid, srcs) {
            Option::Some(kids) => insert_call_dsts(t, dsts, op, srcs, types, kids, 0),
            Option::None => Option::None,
        },
        Op::Add | Op::Sub | Op::Mul | Op::Div | Op::Mod | Op::BitOr | Op::BitAnd | Op::Xor
            | Op::Shl | Op::Shr => if dsts.len() >= 1 && srcs.len() >= 2 && t.contains_key(
            srcs[0] as int,
        ) && t.contains_key(srcs[1] as int) && (dsts[0] as int) < types.len() {
            let ln = t[srcs[0] as int];
            let rn = t[srcs[1] as int];
            let tymax = spec_uint_max(types[dsts[0] as int]);
            if ln.max is Some && rn.max is Some && (is_clamped_binop(op) ==> tymax is Some) && (op
                == Op::Mod ==> rn.max.unwrap() > 0) && ((op == Op::Sub && ln.cst && rn.cst)
                ==> ln.max.unwrap() >= rn.max.unwrap()) {
                let mb = spec_binop(op, ln.max.unwrap(), rn.max.unwrap(), ln.cst, rn.cst, tymax);
                Option::Some(
                    t.insert(
                        dsts[0] as int,
                        TreeN {
                            val: ValM::MCall { op, srcs },
                            max: Option::Some(mb.0),
                            cst: mb.1,
                            kids: seq![ln, rn],
                        },
                    ),
                )
            } else {
                Option::None
            }
        } else {
            Option::None
        },
        Op::Lt | Op::Gt | Op::Le | Op::Ge | Op::Or | Op::And | Op::Eq | Op::Neq => if dsts.len()
            >= 1 && srcs.len() >= 2 && t.contains_key(srcs[0] as int) && t.contains_key(
            srcs[1] as int,
        ) {
            Option::Some(
                t.insert(
                    dsts[0] as int,
                    TreeN {
                        val: ValM::MCall { op, srcs },
                        max: Option::None,
                        cst: false,
                        kids: seq![t[srcs[0] as int], t[srcs[1] as int]],
                    },
                ),
            )
        } else {
            Option::None
        },
        Op::Cast(_) => if dsts.len() >= 1 && srcs.len() >= 1 && t.contains_key(srcs[0] as int) && (
        dsts[0] as int) < types.len() {
            let n = t[srcs[0] as int];
            let tymax = spec_uint_max(types[dsts[0] as int]);
            if n.max is Some && tymax is Some {
                Option::Some(
                    t.insert(
                        dsts[0] as int,
                        TreeN {
                            val: ValM::MCall { op, srcs },
                            max: Option::Some(spec_min(n.max.unwrap(), tymax.unwrap())),
                            cst: n.cst,
                            kids: seq![n],
                        },
                    ),
                )
            } else {
                Option::None
            }
        } else {
            Option::None
        },
        Op::Not => if dsts.len() >= 1 && srcs.len() >= 1 && t.contains_key(srcs[0] as int) {
            Option::Some(
                t.insert(
                    dsts[0] as int,
                    TreeN {
                        val: ValM::MCall { op, srcs },
                        max: Option::None,
                        cst: false,
                        kids: seq![t[srcs[0] as int]],
                    },
                ),
            )
        } else {
            Option::None
        },
        Op::Pack(_, _) => if dsts.len() >= 1 {
            match slots_kids(t, srcs, 0) {
                Option::Some(kids) => Option::Some(
                    t.insert(
                        dsts[0] as int,
                        TreeN { val: ValM::MCall { op, srcs }, max: Option::None, cst: false, kids },
                    ),
                ),
                Option::None => Option::None,
            }
        } else {
            Option::None
        },
        Op::Unpack(_, _) => if srcs.len() >= 1 && t.contains_key(srcs[0] as int) {
            insert_unpack_dsts(t, dsts, op, srcs, types, t[srcs[0] as int], 0)
        } else {
            Option::None
        },
        Op::Exists | Op::FreezeRef | Op::BorrowField | Op::BorrowLoc | Op::ReadRef
            | Op::BorrowGlobal | Op::MoveFrom => if dsts.len() >= 1 && srcs.len() >= 1
            && t.contains_key(srcs[0] as int) && (dsts[0] as int) < types.len() {
            Option::Some(
                t.insert(
                    dsts[0] as int,
                    TreeN {
                        val: ValM::MCall { op, srcs },
                        max: spec_uint_max(types[dsts[0] as int]),
                        cst: false,
                        kids: seq![t[srcs[0] as int]],
                    },
                ),
            )
        } else {
            Option::None
        },
        _ => Option::Some(t),
    }
}

/// The table after one instruction; instructions without a destination leave
/// it unchanged.
pub open spec fn step_table(
    t: Map<int, TreeN>,
    instr: Instr,
    types: Seq<VarType>,
    ctx: BuildCtx,
    built: Seq<Map<int, TreeN>>,
) -> Option<Map<int, TreeN>> {
    match instr {
        Instr::Assign(dst, src, kind) => if t.contains_key(src as int) {
            Option::Some(
                t.insert(
                    dst as int,
                    TreeN {
                        val: ValM::MAssign { src, kind },
                        max: t[src as int].max,
                        cst: false,
                        kids: seq![t[src as int]],
                    },
                ),
            )
        } else {
            Option::None
        },
        Instr::Load(dst, c) => Option::Some(
            t.insert(
                dst as int,
                TreeN {
                    val: ValM::MConst(c),
                    max: spec_uint_constant(c),
                    cst: true,
                    kids: Seq::empty(),
                },
            ),
        ),
        Instr::Call(dsts, op, srcs) => step_call(t, dsts@, op, srcs@, types, ctx, built),
        _ => Option::Some(t),
    }
}

/// The table after the instructions of `code` from position `k` on.
pub open spec fn run_code(
    t: Map<int, TreeN>,
    code: Seq<Instr>,
    k: int,
    types: Seq<VarType>,
    ctx: BuildCtx,
    built: Seq<Map<int, TreeN>>,
) -> Option<Map<int, TreeN>>
    decreases code.len() - k,
{
    if k < 0 || k >= code.len() {
        Option::Some(t)
    } else {
        match step_table(t, code[k], types, ctx, built) {
            Option::Some(t2) => run_code(t2, code, k + 1, types, ctx, built),
            Option::None => Option::None,
        }
    }
}

/// A parameter leaf: bound = the declared type's maximum (absent for
/// non-integer types), never constant, no children.
pub open spec fn param_tree(ty: VarType) -> TreeN {
    TreeN { val: ValM::MParam(ty), max: spec_uint_max(ty), cst: false, kids: Seq::empty() }
}

/// The table before any instruction: one parameter leaf per declared parameter
/// slot.
pub open spec fn init_table(types: Seq<VarType>, pc: int) -> Map<int, TreeN> {
    Map::new(|s: int| 0 <= s < pc, |s: int| param_tree(types[s]))
}

/// The finished table of one function, built in one linear pass.
pub open spec fn spec_build_fn(
    f: FunctionInfo,
    ctx: BuildCtx,
    built: Seq<Map<int, TreeN>>,
) -> Option<Map<int, TreeN>> {
    if f.param_count <= f.local_types@.len() {
        run_code(
            init_table(f.local_types@, f.param_count as int),
            f.code@,
            0,
            f.local_types@,
            ctx,
            built,
        )
    } else {
        Option::None
    }
}

/// The tables of the module's functions from position `k` on, given the
/// tables already built; each function may splice from those before it.
pub open spec fn spec_build_module(
    ctx: BuildCtx,
    k: int,
    built: Seq<Map<int, TreeN>>,
) -> Option<Seq<Map<int, TreeN>>>
    decreases ctx.funcs.len() - k,
{
    if k < 0 || k >= ctx.funcs.len() {
        Option::Some(built)
    } else {
        match spec_build_fn(ctx.funcs[k], ctx, built) {
            Option::Some(tab) => spec_build_module(ctx, k + 1, built.push(tab)),
            Option::None => Option::None,
        }
    }
}

/// The first already analyzed module whose first name is `mname`.
fn find_module_exec(
    stbgrs: &Vec<StacklessBytecodeGenerator>,
    mname: &String,
) -> (r: Option<usize>)
    ensures
        r is Some <==> find_module(stbgrs@, mname@, 0) is Some,
        r is Some ==> find_module(stbgrs@, mname@, 0).unwrap() == r.unwrap() as int,
        r is Some ==> r.unwrap() < stbgrs@.len(),
{
    let mut k: usize = 0;
    while k < stbgrs.len()
        invariant
            0 <= k <= stbgrs.len(),
            find_module(stbgrs@, mname@, 0) == find_module(stbgrs@, mname@, k as int),
        decreases stbgrs.len() - k,
    {
        if stbgrs[k].module_names.len() >= 1 && stbgrs[k].module_names[0] == *mname {
            return Option::Some(k);
        }
        k += 1;
    }
    Option::None
}

/// The definition index of the function with identity `fid`.
fn find_def_exec(ids: &Vec<usize>, fid: usize) -> (r: Option<usize>)
    ensures
        r is Some <==> find_def(ids@, fid, 0) is Some,
        r is Some ==> find_def(ids@, fid, 0).unwrap() == r.unwrap() as int,
        r is Some ==> r.unwrap() < ids@.len(),
{
    let mut k: usize = 0;
    while k < ids.len()
        invariant
            0 <= k <= ids.len(),
            find_def(ids@, fid, 0) == find_def(ids@, fid, k as int),
        decreases ids.len() - k,
    {
        if ids[k] == fid {
            return Option::Some(k);
        }
        k += 1;
    }
    Option::None
}

/// Copies out the nodes of the given slots of a table, in order.
fn slots_nodes(dd: &DataDepent, ss: &Vec<usize>) -> (r: Vec<Node>)
    requires
        slots_kids(dd@, ss@, 0) is Some,
    ensures
        trees_of(r@) == slots_kids(dd@, ss@, 0).unwrap(),
{
    proof {
        lemma_slots_kids(dd@, ss@, 0);
    }
    let mut r: Vec<Node> = Vec::new();
    let mut k: usize = 0;
    while k < ss.len()
        invariant
            0 <= k <= ss.len(),
            slots_kids(dd@, ss@, 0) is Some,
            slots_kids(dd@, ss@, 0).unwrap().len() == ss@.len(),
            forall|i: int| #![trigger ss@[i]] 0 <= i < ss@.len() ==> dd@.contains_key(
                ss@[i] as int,
            ) && slots_kids(dd@, ss@, 0).unwrap()[i] == dd@[ss@[i] as int],
            r@.len() == k,
            forall|i: int| 0 <= i < k ==> r@[i].tree() == dd@[ss@[i] as int],
        decreases ss.len() - k,
    {
        proof {
            assert(dd@.contains_key(ss@[k as int] as int));
        }
        let n = dd.get(ss[k]);
        r.push(n);
        k += 1;
    }
    proof {
        lemma_trees_of(r@);
        assert(trees_of(r@) =~= slots_kids(dd@, ss@, 0).unwrap());
    }
    r
}

/// Resolves a call's dependency inputs as `resolve_call_kids` says, copying
/// the spliced or fallback nodes out of their tables.
fn resolve_call_nodes(
    module_names: &Vec<String>,
    fn_ids: &Vec<usize>,
    functions: &Vec<FunctionInfo>,
    built_tables: &Vec<DataDepent>,
    stbgrs: &Vec<StacklessBytecodeGenerator>,
    mid: usize,
    fid: usize,
    srcs: &Vec<usize>,
    dd: &DataDepent,
) -> (r: Vec<Node>)
    requires
        others_wf(stbgrs@),
        resolve_call_kids(
            spec_ctx(stbgrs@, module_names@, fn_ids@, functions@),
            tables_of(built_tables@),
            dd@,
            mid,
            fid,
            srcs@,
        ) is Some,
    ensures
        trees_of(r@) == resolve_call_kids(
            spec_ctx(stbgrs@, module_names@, fn_ids@, functions@),
            tables_of(built_tables@),
            dd@,
            mid,
            fid,
            srcs@,
        ).unwrap(),
{
    let ghost ctx = spec_ctx(stbgrs@, module_names@, fn_ids@, functions@);
    let ghost built = tables_of(built_tables@);
    proof {
        lemma_tables_of(built_tables@);
    }
    assert(mid < module_names.len());
    if mid != 0 {
        let mname = &module_names[mid];
        match find_module_exec(stbgrs, mname) {
            Option::Some(oi) => {
                proof {
                    assert(others_wf(stbgrs@));
                    assert(gen_wf(stbgrs@[oi as int]));
                }
                let other = &stbgrs[oi];
                match find_def_exec(&other.function_idx_to_id, fid) {
                    Option::Some(di) => {
                        proof {
                            assert(di < other.functions@.len());
                            assert(di < other.data_dependency@.len());
                        }
                        let cf = &other.functions[di];
                        if cf.code.len() >= 1 {
                            let last_pos = cf.code.len() - 1;
                            match &cf.code[last_pos] {
                                Instr::Ret(rets) => {
                                    proof {
                                        assert(resolve_call_kids(ctx, built, dd@, mid, fid, srcs@)
                                            == slots_kids(
                                            other.data_dependency@[di as int]@,
                                            rets@,
                                            0,
                                        ));
                                    }
                                    slots_nodes(&other.data_dependency[di], rets)
                                },
                                _ => slots_nodes(dd, srcs),
                            }
                        } else {
                            slots_nodes(dd, srcs)
                        }
                    },
                    Option::None => slots_nodes(dd, srcs),
                }
            },
            Option::None => slots_nodes(dd, srcs),
        }
    } else {
        match find_def_exec(fn_ids, fid) {
            Option::Some(di) => {
                if di < built_tables.len() && di < functions.len() {
                    let cf = &functions[di];
                    if cf.code.len() >= 1 {
                        let last_pos = cf.code.len() - 1;
                        match &cf.code[last_pos] {
                            Instr::Ret(rets) => {
                                proof {
                                    assert(resolve_call_kids(ctx, built, dd@, mid, fid, srcs@)
                                        == slots_kids(built_tables@[di as int]@, rets@, 0));
                                }
                                slots_nodes(&built_tables[di], rets)
                            },
                            _ => slots_nodes(dd, srcs),
                        }
                    } else {
                        slots_nodes(dd, srcs)
                    }
                } else {
                    slots_nodes(dd, srcs)
                }
            },
            Option::None => slots_nodes(dd, srcs),
        }
    }
}

/// Applies one call-form instruction to the table, exactly as `step_call` says.
fn process_call(
    dd: &mut DataDepent,
    dsts: &Vec<usize>,
    op: &Op,
    srcs: &Vec<usize>,
    local_types: &Vec<VarType>,
    module_names: &Vec<String>,
    fn_ids: &Vec<usize>,
    functions: &Vec<FunctionInfo>,
    built_tables: &Vec<DataDepent>,
    stbgrs: &Vec<StacklessBytecodeGenerator>,
)
    requires
        others_wf(stbgrs@),
        step_call(
            old(dd)@,
            dsts@,
            *op,
            srcs@,
            local_types@,
            spec_ctx(stbgrs@, module_names@, fn_ids@, functions@),
            tables_of(built_tables@),
        ) is Some,
    ensures
        final(dd)@ == step_call(
            old(dd)@,
            dsts@,
            *op,
            srcs@,
            local_types@,
            spec_ctx(stbgrs@, module_names@, fn_ids@, functions@),
            tables_of(built_tables@),
        ).unwrap(),
{
    let ghost t0 = old(dd)@;
    let ghost ctx = spec_ctx(stbgrs@, module_names@, fn_ids@, functions@);
    let ghost built = tables_of(built_tables@);
    let ghost st = step_call(t0, dsts@, *op, srcs@, local_types@, ctx, built);
    match op {
        Op::Function(mid, fid) => {
            proof {
                assert(resolve_call_kids(ctx, built, t0, *mid, *fid, srcs@) is Some);
            }
            let ghost kids = resolve_call_kids(ctx, built, t0, *mid, *fid, srcs@).unwrap();
            let nodes = resolve_call_nodes(
                module_names,
                fn_ids,
                functions,
                built_tables,
                stbgrs,
                *mid,
                *fid,
                srcs,
                dd,
            );
            proof {
                assert(insert_call_dsts(t0, dsts@, *op, srcs@, local_types@, kids, 0) is Some);
            }
            let mut di: usize = 0;
            while di < dsts.len()
                invariant
                    0 <= di <= dsts@.len(),
                    trees_of(nodes@) == kids,
                    insert_call_dsts(dd@, dsts@, *op, srcs@, local_types@, kids, di as int)
                        == insert_call_dsts(t0, dsts@, *op, srcs@, local_types@, kids, 0),
                    insert_call_dsts(t0, dsts@, *op, srcs@, local_types@, kids, 0) is Some,
                decreases dsts@.len() - di,
            {
                proof {
                    assert((dsts@[di as int] as int) < local_types@.len());
                }
                let dst = dsts[di];
                let uint_max = get_uint_max(&local_types[dst]);
                let node = Node::newy_with_nodes(
                    Val::ByteCode(*op, clone_usizes(srcs)),
                    clone_nodes(&nodes),
                    uint_max,
                    false,
                );
                proof {
                    assert(node.tree() == (TreeN {
                        val: ValM::MCall { op: *op, srcs: srcs@ },
                        max: spec_uint_max(local_types@[dst as int]),
                        cst: false,
                        kids,
                    }));
                }
                dd.insert_or_modify(dst, node);
                di += 1;
            }
            proof {
                assert(dd@ == st.unwrap());
            }
        },
        Op::Add | Op::Sub | Op::Mul | Op::Div | Op::Mod | Op::BitOr | Op::BitAnd | Op::Xor
            | Op::Shl | Op::Shr => {
            proof {
                assert(dsts@.len() >= 1 && srcs@.len() >= 2);
                assert(t0.contains_key(srcs@[0] as int) && t0.contains_key(srcs@[1] as int));
                assert((dsts@[0] as int) < local_types@.len());
            }
            let lnode = dd.get(srcs[0]);
            let rnode = dd.get(srcs[1]);
            let ghost lt = lnode.tree();
            let ghost rt = rnode.tree();
            let lmax = lnode.max;
            let rmax = rnode.max;
            let lc = lnode.is_constant;
            let rc = rnode.is_constant;
            proof {
                assert(lt.max == omax(lmax) && rt.max == omax(rmax));
                assert(lt.max is Some && rt.max is Some);
                assert(u256_val(lmax.unwrap()) == lt.max.unwrap());
                assert(u256_val(rmax.unwrap()) == rt.max.unwrap());
            }
            let combined = binary_operation_max(*op, lmax, rmax, lc, rc, &local_types[dsts[0]]);
            let node = Node::new_with_binary_nodes(
                Val::ByteCode(*op, clone_usizes(srcs)),
                lnode,
                rnode,
                combined.0,
                combined.1,
            );
            dd.insert_or_modify(dsts[0], node);
            proof {
                assert(dd@ == st.unwrap());
            }
        },
        Op::Lt | Op::Gt | Op::Le | Op::Ge | Op::Or | Op::And | Op::Eq | Op::Neq => {
            proof {
                assert(dsts@.len() >= 1 && srcs@.len() >= 2);
                assert(t0.contains_key(srcs@[0] as int) && t0.contains_key(srcs@[1] as int));
            }
            let lnode = dd.get(srcs[0]);
            let rnode = dd.get(srcs[1]);
            let node = Node::new_with_binary_nodes(
                Val::ByteCode(*op, clone_usizes(srcs)),
                lnode,
                rnode,
                Option::None,
                false,
            );
            dd.insert_or_modify(dsts[0], node);
            proof {
                assert(dd@ == st.unwrap());
            }
        },
        Op::Cast(_) => {
            proof {
                assert(dsts@.len() >= 1 && srcs@.len() >= 1);
                assert(t0.contains_key(srcs@[0] as int));
                assert((dsts@[0] as int) < local_types@.len());
            }
            let node = dd.get(srcs[0]);
            let ghost nt = node.tree();
            let ty_max = get_uint_max(&local_types[dsts[0]]);
            let nmax = node.max;
            let ncst = node.is_constant;
            proof {
                assert(nt.max == omax(nmax));
                assert(nt.max is Some && spec_uint_max(local_types@[dsts@[0] as int]) is Some);
            }
            let new_max = get_min_uint(nmax, ty_max);
            let nd = Node::new_with_node(
                Val::ByteCode(*op, clone_usizes(srcs)),
                node,
                new_max,
                ncst,
            );
            dd.insert_or_modify(dsts[0], nd);
            proof {
                assert(dd@ == st.unwrap());
            }
        },
        Op::Not => {
            proof {
                assert(dsts@.len() >= 1 && srcs@.len() >= 1);
                assert(t0.contains_key(srcs@[0] as int));
            }
            let node = dd.get(srcs[0]);
            let nd = Node::new_with_node(
                Val::ByteCode(*op, clone_usizes(srcs)),
                node,
                Option::None,
                false,
            );
            dd.insert_or_modify(dsts[0], nd);
            proof {
                assert(dd@ == st.unwrap());
            }
        },
        Op::Pack(_, _) => {
            proof {
                assert(dsts@.len() >= 1);
                assert(slots_kids(t0, srcs@, 0) is Some);
            }
            let nodes = slots_nodes(dd, srcs);
            let nd = Node::newy_with_nodes(
                Val::ByteCode(*op, clone_usizes(srcs)),
                nodes,
                Option::None,
                false,
            );
            dd.insert_or_modify(dsts[0], nd);
            proof {
                assert(dd@ == st.unwrap());
            }
        },
        Op::Unpack(_, _) => {
            proof {
                assert(srcs@.len() >= 1);
                assert(t0.contains_key(srcs@[0] as int));
            }
            let node = dd.get(srcs[0]);
            let ghost nt = node.tree();
            proof {
                lemma_trees_of(node.subnodes@);
                assert(insert_unpack_dsts(t0, dsts@, *op, srcs@, local_types@, nt, 0) is Some);
            }
            let mut i: usize = 0;
            while i < dsts.len()
                invariant
                    0 <= i <= dsts@.len(),
                    nt == node.tree(),
                    node.subnodes@.len() == nt.kids.len(),
                    forall|x: int| 0 <= x < nt.kids.len() ==> nt.kids[x] == node.subnodes@[x].tree(),
                    insert_unpack_dsts(dd@, dsts@, *op, srcs@, local_types@, nt, i as int)
                        == insert_unpack_dsts(t0, dsts@, *op, srcs@, local_types@, nt, 0),
                    insert_unpack_dsts(t0, dsts@, *op, srcs@, local_types@, nt, 0) is Some,
                decreases dsts@.len() - i,
            {
                proof {
                    assert((dsts@[i as int] as int) < local_types@.len());
                }
                let dst = dsts[i];
                let m: Option<ethnum::U256> = if node.subnodes.len() == dsts.len() {
                    if node.subnodes[i].max.is_none() {
                        get_uint_max(&local_types[dst])
                    } else {
                        node.subnodes[i].max
                    }
                } else {
                    get_uint_max(&local_types[dst])
                };
                let child = clone_node(&node);
                let nd = Node::new_with_node(Val::ByteCode(*op, clone_usizes(srcs)), child, m, false);
                dd.insert_or_modify(dst, nd);
                i += 1;
            }
            proof {
                assert(dd@ == st.unwrap());
            }
        },
        Op::Exists | Op::FreezeRef | Op::BorrowField | Op::BorrowLoc | Op::ReadRef
            | Op::BorrowGlobal | Op::MoveFrom => {
            proof {
                assert(dsts@.len() >= 1 && srcs@.len() >= 1);
                assert(t0.contains_key(srcs@[0] as int));
                assert((dsts@[0] as int) < local_types@.len());
            }
            let node = dd.get(srcs[0]);
            let uint_max = get_uint_max(&local_types[dsts[0]]);
            let nd = Node::new_with_node(
                Val::ByteCode(*op, clone_usizes(srcs)),
                node,
                uint_max,
                false,
            );
            dd.insert_or_modify(dsts[0], nd);
            proof {
                assert(dd@ == st.unwrap());
            }
        },
        _ => {
            proof {
                assert(dd@ == st.unwrap());
            }
        },
    }
}

/// Applies one instruction to the table, exactly as `step_table` says;
/// instructions without a destination leave it unchanged.
pub fn process_instruction(
    dd: &mut DataDepent,
    instr: &Instr,
    local_types: &Vec<VarType>,
    module_names: &Vec<String>,
    fn_ids: &Vec<usize>,
    functions: &Vec<FunctionInfo>,
    built_tables: &Vec<DataDepent>,
    stbgrs: &Vec<StacklessBytecodeGenerator>,
)
    requires
        others_wf(stbgrs@),
        step_table(
            old(dd)@,
            *instr,
            local_types@,
            spec_ctx(stbgrs@, module_names@, fn_ids@, functions@),
            tables_of(built_tables@),
        ) is Some,
    ensures
        final(dd)@ == step_table(
            old(dd)@,
            *instr,
            local_types@,
            spec_ctx(stbgrs@, module_names@, fn_ids@, functions@),
            tables_of(built_tables@),
        ).unwrap(),
{
    let ghost t0 = old(dd)@;
    let ghost ctx = spec_ctx(stbgrs@, module_names@, fn_ids@, functions@);
    let ghost built = tables_of(built_tables@);
    let ghost st = step_table(t0, *instr, local_types@, ctx, built);
    match instr {
        Instr::Assign(dst, src, kind) => {
            proof {
                assert(t0.contains_key(*src as int));
            }
            let node = dd.get(*src);
            let ghost nt = node.tree();
            let nmax = node.max;
            let wrapped = Node::new_with_node(Val::AssIgn(*src, *kind), node, nmax, false);
            dd.insert_or_modify(*dst, wrapped);
            proof {
                assert(dd@ == st.unwrap());
            }
        },
        Instr::Load(dst, c) => {
            let constant = get_uint_constant(c);
            let node = Node::new(Val::Const(*c), constant, true);
            dd.insert_or_modify(*dst, node);
            proof {
                assert(dd@ == st.unwrap());
            }
        },
        Instr::Call(dsts, op, srcs) => {
            process_call(
                dd,
                dsts,
                op,
                srcs,
                local_types,
                module_names,
                fn_ids,
                functions,
                built_tables,
                stbgrs,
            );
        },
        _ => {
            proof {
                assert(dd@ == st.unwrap());
            }
        },
    }
}

impl StacklessBytecodeGenerator {
    /// Builds one dependency table per function of this module, in declaration
    /// order, splicing callee summaries from `stbgrs` (the other, already
    /// analyzed modules) and from this module\'s own earlier functions. The
    /// result is exactly the mathematical fold `spec_build_module`; its
    /// existence (`is Some`) says the bytecode is well formed for this pass:
    /// no slot is read before it is defined and no required bound is absent.
    pub fn get_data_dependency(&mut self, stbgrs: &Vec<StacklessBytecodeGenerator>)
        requires
            others_wf(stbgrs@),
            old(self).data_dependency@.len() == 0,
            spec_build_module(
                spec_ctx(
                    stbgrs@,
                    old(self).module_names@,
                    old(self).function_idx_to_id@,
                    old(self).functions@,
                ),
                0,
                Seq::empty(),
            ) is Some,
        ensures
            final(self).module_names == old(self).module_names,
            final(self).functions == old(self).functions,
            final(self).function_idx_to_id == old(self).function_idx_to_id,
            final(self).symbols == old(self).symbols,
            final(self).structs == old(self).structs,
            final(self).data_dependency@.len() == old(self).functions@.len(),
            tables_of(final(self).data_dependency@) == spec_build_module(
                spec_ctx(
                    stbgrs@,
                    old(self).module_names@,
                    old(self).function_idx_to_id@,
                    old(self).functions@,
                ),
                0,
                Seq::empty(),
            ).unwrap(),
    {
        let ghost ctx = spec_ctx(
            stbgrs@,
            self.module_names@,
            self.function_idx_to_id@,
            self.functions@,
        );
        let ghost goal = spec_build_module(ctx, 0, Seq::empty());
        proof {
            assert(tables_of(self.data_dependency@) =~= Seq::<Map<int, TreeN>>::empty());
        }
        let mut idx: usize = 0;
        while idx < self.functions.len()
            invariant
                others_wf(stbgrs@),
                self.module_names == old(self).module_names,
                self.functions == old(self).functions,
                self.function_idx_to_id == old(self).function_idx_to_id,
                self.symbols == old(self).symbols,
                self.structs == old(self).structs,
                ctx == spec_ctx(
                    stbgrs@,
                    self.module_names@,
                    self.function_idx_to_id@,
                    self.functions@,
                ),
                goal == spec_build_module(ctx, 0, Seq::empty()),
                goal is Some,
                0 <= idx <= self.functions@.len(),
                self.data_dependency@.len() == idx,
                spec_build_module(ctx, idx as int, tables_of(self.data_dependency@)) == goal,
            decreases self.functions@.len() - idx,
        {
            let ghost built = tables_of(self.data_dependency@);
            let f = &self.functions[idx];
            let ghost fv = *f;
            proof {
                assert(spec_build_fn(fv, ctx, built) is Some);
                assert(fv.param_count <= fv.local_types@.len());
            }
            let ghost bf = spec_build_fn(fv, ctx, built);
            let mut dd = DataDepent::new_table();
            let mut i: usize = 0;
            while i < f.param_count
                invariant
                    0 <= i <= f.param_count,
                    f.param_count <= f.local_types@.len(),
                    fv == *f,
                    dd@ == Map::new(
                        |s: int| 0 <= s < i,
                        |s: int| param_tree(fv.local_types@[s]),
                    ),
                decreases f.param_count - i,
            {
                let uint_max = get_uint_max(&f.local_types[i]);
                let node = Node::new(
                    Val::ParamType(clone_var_type(&f.local_types[i])),
                    uint_max,
                    false,
                );
                dd.insert_or_modify(i, node);
                proof {
                    assert(dd@ =~= Map::new(
                        |s: int| 0 <= s < i + 1,
                        |s: int| param_tree(fv.local_types@[s]),
                    ));
                }
                i += 1;
            }
            proof {
                assert(dd@ =~= init_table(fv.local_types@, fv.param_count as int));
                assert(run_code(dd@, fv.code@, 0, fv.local_types@, ctx, built) == bf);
            }
            let mut j: usize = 0;
            while j < f.code.len()
                invariant
                    others_wf(stbgrs@),
                    0 <= j <= f.code@.len(),
                    fv == *f,
                    ctx == spec_ctx(
                        stbgrs@,
                        self.module_names@,
                        self.function_idx_to_id@,
                        self.functions@,
                    ),
                    built == tables_of(self.data_dependency@),
                    bf is Some,
                    run_code(dd@, fv.code@, j as int, fv.local_types@, ctx, built) == bf,
                decreases f.code@.len() - j,
            {
                let ghost tj = dd@;
                proof {
                    assert(step_table(tj, fv.code@[j as int], fv.local_types@, ctx, built)
                        is Some);
                }
                process_instruction(
                    &mut dd,
                    &f.code[j],
                    &f.local_types,
                    &self.module_names,
                    &self.function_idx_to_id,
                    &self.functions,
                    &self.data_dependency,
                    stbgrs,
                );
                j += 1;
            }
            proof {
                assert(bf == Option::Some(dd@));
                assert(spec_build_module(ctx, idx + 1 as int, built.push(dd@)) == goal);
            }
            let ghost ddv = dd@;
            let ghost old_dds = self.data_dependency@;
            self.data_dependency.push(dd);
            proof {
                lemma_tables_of(old_dds);
                lemma_tables_of(self.data_dependency@);
                assert(self.data_dependency@ == old_dds.push(dd));
                assert(tables_of(self.data_dependency@) =~= built.push(ddv));
            }
            idx += 1;
        }
        proof {
            assert(spec_build_module(ctx, idx as int, tables_of(self.data_dependency@))
                == Option::Some(tables_of(self.data_dependency@)));
        }
    }
}

} // verus!

