//! The dependency-DAG node model: a node carries a tagged value, its child
//! subtrees, a conservative bound, and a constant flag. Contracts speak of
//! `TreeN`, the mathematical tree a node denotes, through `Node::tree`.

use vstd::prelude::*;
use vstd::string::StringExecFns;
use std::collections::VecDeque;
use crate::model::{AssignKind, ConstVal, Op, VarType, Width};
use crate::bounds::omax;
use crate::u256::{dec_str, u256_to_string, u256_val};

verus! {

broadcast use vstd::std_specs::vec::group_vec_axioms;

/// The tagged value a dependency node carries: an operation (with the source
/// slots of the originating instruction), an immediate literal, the declared
/// type of a parameter, or a copy/move/store assignment of a source slot.
pub enum Val {
    ByteCode(Op, Vec<usize>),
    Const(ConstVal),
    ParamType(VarType),
    AssIgn(usize, AssignKind),
}

/// The mathematical summary of a node's tag.
pub enum ValM {
    MCall { op: Op, srcs: Seq<usize> },
    MConst(ConstVal),
    MParam(VarType),
    MAssign { src: usize, kind: AssignKind },
}

/// The mathematical tree a node denotes: tag, bound value, constant flag, and
/// the denotations of its children in order.
pub struct TreeN {
    pub val: ValM,
    pub max: Option<nat>,
    pub cst: bool,
    pub kids: Seq<TreeN>,
}

pub open spec fn val_m(v: Val) -> ValM {
    match v {
        Val::ByteCode(op, srcs) => ValM::MCall { op, srcs: srcs@ },
        Val::Const(c) => ValM::MConst(c),
        Val::ParamType(t) => ValM::MParam(t),
        Val::AssIgn(src, kind) => ValM::MAssign { src, kind },
    }
}

/// One node of the dependency DAG.
pub struct Node {
    pub value: Val,
    pub subnodes: Vec<Node>,
    pub max: Option<ethnum::U256>,
    pub is_constant: bool,
}

/// The denotations of the nodes of `s` from position `k` on.
pub open spec fn trees_of_from(s: Seq<Node>, k: int) -> Seq<TreeN>
    decreases s, s.len() - k,
{
    if k < 0 || k >= s.len() {
        Seq::empty()
    } else {
        seq![s[k].tree()] + trees_of_from(s, k + 1)
    }
}

/// The denotations of all nodes of `s`, in order.
pub open spec fn trees_of(s: Seq<Node>) -> Seq<TreeN> {
    trees_of_from(s, 0)
}

impl Node {
    /// The mathematical tree this node denotes.
    pub open spec fn tree(self) -> TreeN
        decreases self, 0int,
    {
        TreeN {
            val: val_m(self.value),
            max: omax(self.max),
            cst: self.is_constant,
            kids: trees_of_from(self.subnodes@, 0),
        }
    }
}

pub proof fn lemma_trees_of_from(s: Seq<Node>, k: int)
    requires
        0 <= k <= s.len(),
    ensures
        trees_of_from(s, k).len() == s.len() - k,
        forall|i: int| k <= i < s.len() ==> trees_of_from(s, k)[i - k] == s[i].tree(),
    decreases s.len() - k,
{
    if k < s.len() {
        lemma_trees_of_from(s, k + 1);
    }
}

/// The denotations of a sequence of nodes are their trees, position by position.
pub proof fn lemma_trees_of(s: Seq<Node>)
    ensures
        trees_of(s).len() == s.len(),
        forall|i: int| 0 <= i < s.len() ==> trees_of(s)[i] == s[i].tree(),
{
    lemma_trees_of_from(s, 0);
}

/// Structural well-formedness of a denoted tree: an assignment node has at
/// least one child, and a local-borrow operation node records at least one
/// source slot.
pub open spec fn twf(t: TreeN) -> bool
    decreases t, 0int,
{
    all_twf(t.kids, 0) && match t.val {
        ValM::MAssign { .. } => t.kids.len() >= 1,
        ValM::MCall { op: Op::BorrowLoc, srcs } => srcs.len() >= 1,
        _ => true,
    }
}

pub open spec fn all_twf(s: Seq<TreeN>, k: int) -> bool
    decreases s, s.len() - k,
{
    if k < 0 || k >= s.len() {
        true
    } else {
        twf(s[k]) && all_twf(s, k + 1)
    }
}

pub proof fn lemma_all_twf(s: Seq<TreeN>)
    ensures
        all_twf(s, 0) <==> (forall|i: int| 0 <= i < s.len() ==> twf(s[i])),
{
    lemma_all_twf_from(s, 0);
}

pub proof fn lemma_all_twf_from(s: Seq<TreeN>, k: int)
    requires
        0 <= k <= s.len(),
    ensures
        all_twf(s, k) <==> (forall|i: int| k <= i < s.len() ==> twf(s[i])),
    decreases s.len() - k,
{
    if k < s.len() {
        lemma_all_twf_from(s, k + 1);
    }
}

/// Constant-foldability of a denoted tree: a literal is foldable, a parameter
/// is not, an operation or assignment is foldable exactly when all of its
/// children are.
pub open spec fn spec_is_const(t: TreeN) -> bool
    decreases t, 0int,
{
    match t.val {
        ValM::MCall { .. } => all_const(t.kids, 0),
        ValM::MConst(_) => true,
        ValM::MParam(_) => false,
        ValM::MAssign { .. } => if t.kids.len() >= 1 {
            spec_is_const(t.kids[0])
        } else {
            true
        },
    }
}

pub open spec fn all_const(s: Seq<TreeN>, k: int) -> bool
    decreases s, s.len() - k,
{
    if k < 0 || k >= s.len() {
        true
    } else {
        spec_is_const(s[k]) && all_const(s, k + 1)
    }
}

impl Node {
    pub fn new(value: Val, max: Option<ethnum::U256>, is_constant: bool) -> (r: Node)
        ensures
            r.tree() == (TreeN {
                val: val_m(value),
                max: omax(max),
                cst: is_constant,
                kids: Seq::<TreeN>::empty(),
            }),
    {
        let r = Node { value, subnodes: Vec::new(), max, is_constant };
        proof {
            assert(r.tree().kids =~= Seq::<TreeN>::empty());
        }
        r
    }

    pub fn newy_with_nodes(
        value: Val,
        nodes: Vec<Node>,
        max: Option<ethnum::U256>,
        is_constant: bool,
    ) -> (r: Node)
        ensures
            r.tree() == (TreeN {
                val: val_m(value),
                max: omax(max),
                cst: is_constant,
                kids: trees_of(nodes@),
            }),
    {
        Node { value, subnodes: nodes, max, is_constant }
    }

    pub fn new_with_node(
        value: Val,
        node: Node,
        max: Option<ethnum::U256>,
        is_constant: bool,
    ) -> (r: Node)
        ensures
            r.tree() == (TreeN {
                val: val_m(value),
                max: omax(max),
                cst: is_constant,
                kids: seq![node.tree()],
            }),
    {
        let ghost nt = node.tree();
        let mut nodes: Vec<Node> = Vec::new();
        nodes.push(node);
        let r = Node { value, subnodes: nodes, max, is_constant };
        proof {
            lemma_trees_of(r.subnodes@);
            assert(r.tree().kids =~= seq![nt]);
        }
        r
    }

    pub fn new_with_binary_nodes(
        value: Val,
        lnode: Node,
        rnode: Node,
        max: Option<ethnum::U256>,
        is_constant: bool,
    ) -> (r: Node)
        ensures
            r.tree() == (TreeN {
                val: val_m(value),
                max: omax(max),
                cst: is_constant,
                kids: seq![lnode.tree(), rnode.tree()],
            }),
    {
        let ghost lt = lnode.tree();
        let ghost rt = rnode.tree();
        let mut nodes: Vec<Node> = Vec::new();
        nodes.push(lnode);
        nodes.push(rnode);
        let r = Node { value, subnodes: nodes, max, is_constant };
        proof {
            lemma_trees_of(r.subnodes@);
            assert(r.tree().kids =~= seq![lt, rt]);
        }
        r
    }
}

pub fn clone_usizes(v: &Vec<usize>) -> (r: Vec<usize>)
    ensures
        r@ == v@,
{
    let mut r: Vec<usize> = Vec::new();
    let mut k: usize = 0;
    while k < v.len()
        invariant
            0 <= k <= v.len(),
            r@ == v@.subrange(0, k as int),
        decreases v.len() - k,
    {
        r.push(v[k]);
        proof {
            assert(r@ =~= v@.subrange(0, k + 1 as int));
        }
        k += 1;
    }
    proof {
        assert(r@ =~= v@);
    }
    r
}

/// A deep copy of a declared type.
pub fn clone_var_type(t: &VarType) -> (r: VarType)
    ensures
        r == *t,
    decreases t,
{
    match t {
        VarType::Uint(w) => VarType::Uint(*w),
        VarType::Bool => VarType::Bool,
        VarType::Address => VarType::Address,
        VarType::Signer => VarType::Signer,
        VarType::Ref(m, inner) => VarType::Ref(*m, Box::new(clone_var_type(&**inner))),
        VarType::Other => VarType::Other,
    }
}

pub fn clone_val(v: &Val) -> (r: Val)
    ensures
        val_m(r) == val_m(*v),
{
    match v {
        Val::ByteCode(op, srcs) => Val::ByteCode(*op, clone_usizes(srcs)),
        Val::Const(c) => Val::Const(*c),
        Val::ParamType(t) => Val::ParamType(clone_var_type(t)),
        Val::AssIgn(src, kind) => Val::AssIgn(*src, *kind),
    }
}

/// A deep copy of a node; it denotes the same tree.
pub fn clone_node(n: &Node) -> (r: Node)
    ensures
        r.tree() == n.tree(),
    decreases *n,
{
    let value = clone_val(&n.value);
    let mut subnodes: Vec<Node> = Vec::new();
    let mut k: usize = 0;
    while k < n.subnodes.len()
        invariant
            0 <= k <= n.subnodes.len(),
            subnodes@.len() == k,
            forall|i: int| 0 <= i < k ==> subnodes@[i].tree() == n.subnodes@[i].tree(),
        decreases n.subnodes.len() - k,
    {
        let c = clone_node(&n.subnodes[k]);
        subnodes.push(c);
        k += 1;
    }
    let r = Node { value, subnodes, max: n.max, is_constant: n.is_constant };
    proof {
        lemma_trees_of(r.subnodes@);
        lemma_trees_of(n.subnodes@);
        assert(trees_of(r.subnodes@) =~= trees_of(n.subnodes@));
    }
    r
}

impl Node {
    /// True exactly when the denoted tree is constant-foldable: every leaf
    /// reachable from it is a literal and no parameter leaf is reachable.
    pub fn is_const(&self) -> (r: bool)
        requires
            twf(self.tree()),
        ensures
            r == spec_is_const(self.tree()),
        decreases *self,
    {
        match &self.value {
            Val::ByteCode(_, _) => {
                let ghost kt = self.tree().kids;
                proof {
                    lemma_trees_of(self.subnodes@);
                }
                let mut acc = true;
                let mut k: usize = 0;
                while k < self.subnodes.len()
                    invariant
                        0 <= k <= self.subnodes.len(),
                        kt == trees_of(self.subnodes@),
                        kt.len() == self.subnodes@.len(),
                        forall|i: int| 0 <= i < self.subnodes@.len() ==> kt[i]
                            == self.subnodes@[i].tree(),
                        twf(self.tree()),
                        (acc && all_const(kt, k as int)) == all_const(kt, 0),
                    decreases self.subnodes.len() - k,
                {
                    proof {
                        lemma_all_twf(kt);
                        assert(self.tree().kids == kt);
                        assert(all_twf(kt, 0));
                        assert(twf(kt[k as int]));
                        assert(kt[k as int] == self.subnodes@[k as int].tree());
                    }
                    let c = self.subnodes[k].is_const();
                    acc = acc && c;
                    k += 1;
                }
                acc
            },
            Val::Const(_) => true,
            Val::ParamType(_) => false,
            Val::AssIgn(_, _) => {
                proof {
                    lemma_trees_of(self.subnodes@);
                    lemma_all_twf(self.tree().kids);
                }
                self.subnodes[0].is_const()
            },
        }
    }
}

/// The operator vocabulary of the textual rendering.
pub open spec fn spec_op_name(op: Op) -> Seq<char> {
    match op {
        Op::Add => "Add"@,
        Op::Sub => "Sub"@,
        Op::Mul => "Mul"@,
        Op::Div => "Div"@,
        Op::Mod => "Mod"@,
        Op::BitOr => "BitOr"@,
        Op::BitAnd => "BitAnd"@,
        Op::Xor => "Xor"@,
        Op::Shl => "Shl"@,
        Op::Shr => "Shr"@,
        Op::Lt => "Lt"@,
        Op::Gt => "Gt"@,
        Op::Le => "Le"@,
        Op::Ge => "Ge"@,
        Op::Or => "Or"@,
        Op::And => "And"@,
        Op::Eq => "Eq"@,
        Op::Neq => "Neq"@,
        Op::Not => "Not"@,
        Op::Cast(w) => match w {
            Width::W8 => "CastU8"@,
            Width::W16 => "CastU16"@,
            Width::W32 => "CastU32"@,
            Width::W64 => "CastU64"@,
            Width::W128 => "CastU128"@,
            Width::W256 => "CastU256"@,
        },
        Op::Pack(_, _) => "Pack"@,
        Op::Unpack(_, _) => "Unpack"@,
        Op::BorrowLoc => "BorrowLoc"@,
        Op::BorrowField => "BorrowField"@,
        Op::BorrowGlobal => "BorrowGlobal"@,
        Op::ReadRef => "ReadRef"@,
        Op::FreezeRef => "FreezeRef"@,
        Op::Exists => "Exists"@,
        Op::MoveFrom => "MoveFrom"@,
        Op::MoveTo => "MoveTo"@,
        Op::WriteRef => "WriteRef"@,
        Op::Function(_, _) => "Function"@,
        Op::Other => "Op"@,
    }
}

/// The display name of a declared type.
pub open spec fn spec_type_name(t: VarType) -> Seq<char>
    decreases t,
{
    match t {
        VarType::Uint(w) => match w {
            Width::W8 => "u8"@,
            Width::W16 => "u16"@,
            Width::W32 => "u32"@,
            Width::W64 => "u64"@,
            Width::W128 => "u128"@,
            Width::W256 => "u256"@,
        },
        VarType::Bool => "bool"@,
        VarType::Address => "address"@,
        VarType::Signer => "signer"@,
        VarType::Ref(m, inner) => (if m {
            "&mut "@
        } else {
            "&"@
        }) + spec_type_name(*inner),
        VarType::Other => "unknown"@,
    }
}

/// The rendering of a literal: integers in decimal, booleans by name.
pub open spec fn spec_const_text(c: ConstVal) -> Seq<char> {
    match c {
        ConstVal::Uint(_, v) => dec_str(u256_val(v)),
        ConstVal::Bool(b) => if b {
            "true"@
        } else {
            "false"@
        },
        ConstVal::Other => "const"@,
    }
}

/// The textual form of a denoted tree: an operation renders as
/// `name(child, child, ...)`, a literal as its value, a parameter as its type
/// name, and an assignment transparently as its children in order.
pub open spec fn spec_render(t: TreeN) -> Seq<char>
    decreases t, 0int,
{
    match t.val {
        ValM::MCall { op, .. } => spec_op_name(op) + "("@ + render_kids(t.kids, 0) + ")"@,
        ValM::MConst(c) => spec_const_text(c),
        ValM::MParam(ty) => spec_type_name(ty),
        ValM::MAssign { .. } => render_kids_nosep(t.kids, 0),
    }
}

/// The renderings of the trees of `s` from position `k` on, comma-separated
/// against the part already rendered.
pub open spec fn render_kids(s: Seq<TreeN>, k: int) -> Seq<char>
    decreases s, s.len() - k,
{
    if k < 0 || k >= s.len() {
        Seq::empty()
    } else if k == 0 {
        spec_render(s[0]) + render_kids(s, 1)
    } else {
        ", "@ + spec_render(s[k]) + render_kids(s, k + 1)
    }
}

/// The renderings of the trees of `s` from position `k` on, unseparated.
pub open spec fn render_kids_nosep(s: Seq<TreeN>, k: int) -> Seq<char>
    decreases s, s.len() - k,
{
    if k < 0 || k >= s.len() {
        Seq::empty()
    } else {
        spec_render(s[k]) + render_kids_nosep(s, k + 1)
    }
}

/// The operator's display name.
pub fn op_name(op: &Op) -> (r: &'static str)
    ensures
        r@ == spec_op_name(*op),
{
    match op {
        Op::Add => "Add",
        Op::Sub => "Sub",
        Op::Mul => "Mul",
        Op::Div => "Div",
        Op::Mod => "Mod",
        Op::BitOr => "BitOr",
        Op::BitAnd => "BitAnd",
        Op::Xor => "Xor",
        Op::Shl => "Shl",
        Op::Shr => "Shr",
        Op::Lt => "Lt",
        Op::Gt => "Gt",
        Op::Le => "Le",
        Op::Ge => "Ge",
        Op::Or => "Or",
        Op::And => "And",
        Op::Eq => "Eq",
        Op::Neq => "Neq",
        Op::Not => "Not",
        Op::Cast(w) => match w {
            Width::W8 => "CastU8",
            Width::W16 => "CastU16",
            Width::W32 => "CastU32",
            Width::W64 => "CastU64",
            Width::W128 => "CastU128",
            Width::W256 => "CastU256",
        },
        Op::Pack(_, _) => "Pack",
        Op::Unpack(_, _) => "Unpack",
        Op::BorrowLoc => "BorrowLoc",
        Op::BorrowField => "BorrowField",
        Op::BorrowGlobal => "BorrowGlobal",
        Op::ReadRef => "ReadRef",
        Op::FreezeRef => "FreezeRef",
        Op::Exists => "Exists",
        Op::MoveFrom => "MoveFrom",
        Op::MoveTo => "MoveTo",
        Op::WriteRef => "WriteRef",
        Op::Function(_, _) => "Function",
        Op::Other => "Op",
    }
}

/// The display name of a declared type.
pub fn vartype_name(t: &VarType) -> (r: String)
    ensures
        r@ == spec_type_name(*t),
    decreases t,
{
    match t {
        VarType::Uint(w) => match w {
            Width::W8 => String::from_str("u8"),
            Width::W16 => String::from_str("u16"),
            Width::W32 => String::from_str("u32"),
            Width::W64 => String::from_str("u64"),
            Width::W128 => String::from_str("u128"),
            Width::W256 => String::from_str("u256"),
        },
        VarType::Bool => String::from_str("bool"),
        VarType::Address => String::from_str("address"),
        VarType::Signer => String::from_str("signer"),
        VarType::Ref(m, inner) => {
            let mut s = if *m {
                String::from_str("&mut ")
            } else {
                String::from_str("&")
            };
            let rest = vartype_name(&**inner);
            s.append(rest.as_str());
            s
        },
        VarType::Other => String::from_str("unknown"),
    }
}

/// The rendering of a literal.
pub fn const_text(c: &ConstVal) -> (r: String)
    ensures
        r@ == spec_const_text(*c),
{
    match c {
        ConstVal::Uint(_, v) => u256_to_string(v),
        ConstVal::Bool(b) => if *b {
            String::from_str("true")
        } else {
            String::from_str("false")
        },
        ConstVal::Other => String::from_str("const"),
    }
}

impl Node {
    /// Appends the textual form of the denoted tree to `res`.
    pub fn display(&self, res: &mut String)
        ensures
            final(res)@ == old(res)@ + spec_render(self.tree()),
        decreases *self,
    {
        let ghost t = self.tree();
        match &self.value {
            Val::ByteCode(op, _) => {
                let ghost opv = *op;
                let ghost kt = t.kids;
                proof {
                    lemma_trees_of(self.subnodes@);
                }
                res.append(op_name(op));
                res.append("(");
                let ghost header = old(res)@ + spec_op_name(opv) + "("@;
                proof {
                    assert(res@ =~= header);
                }
                let mut k: usize = 0;
                while k < self.subnodes.len()
                    invariant
                        0 <= k <= self.subnodes.len(),
                        kt == trees_of(self.subnodes@),
                        kt.len() == self.subnodes@.len(),
                        forall|i: int| 0 <= i < self.subnodes@.len() ==> kt[i]
                            == self.subnodes@[i].tree(),
                        header == old(res)@ + spec_op_name(opv) + "("@,
                        res@ + render_kids(kt, k as int) == header + render_kids(kt, 0),
                    decreases self.subnodes.len() - k,
                {
                    let ghost before = res@;
                    if k > 0 {
                        res.append(", ");
                    }
                    self.subnodes[k].display(res);
                    proof {
                        assert(res@ + render_kids(kt, k + 1 as int) =~= before + render_kids(
                            kt,
                            k as int,
                        ));
                    }
                    k += 1;
                }
                res.append(")");
                proof {
                    assert(res@ =~= old(res)@ + spec_render(t));
                }
            },
            Val::Const(c) => {
                let s = const_text(c);
                res.append(s.as_str());
            },
            Val::ParamType(ty) => {
                let s = vartype_name(ty);
                res.append(s.as_str());
            },
            Val::AssIgn(_, _) => {
                let ghost kt = t.kids;
                proof {
                    lemma_trees_of(self.subnodes@);
                }
                let mut k: usize = 0;
                while k < self.subnodes.len()
                    invariant
                        0 <= k <= self.subnodes.len(),
                        kt == trees_of(self.subnodes@),
                        kt.len() == self.subnodes@.len(),
                        forall|i: int| 0 <= i < self.subnodes@.len() ==> kt[i]
                            == self.subnodes@[i].tree(),
                        res@ + render_kids_nosep(kt, k as int) == old(res)@ + render_kids_nosep(
                            kt,
                            0,
                        ),
                    decreases self.subnodes.len() - k,
                {
                    let ghost before = res@;
                    self.subnodes[k].display(res);
                    proof {
                        assert(res@ + render_kids_nosep(kt, k + 1 as int) =~= before
                            + render_kids_nosep(kt, k as int));
                    }
                    k += 1;
                }
                proof {
                    assert(res@ =~= old(res)@ + spec_render(t));
                }
            },
        }
    }
}

/// The condition slots collected from a denoted tree: the first source of every
/// reachable local-borrow operation, and the source slot of a copy or move
/// assignment at the root.
pub open spec fn spec_conditions(t: TreeN) -> Seq<usize>
    decreases t, 0int,
{
    match t.val {
        ValM::MCall { op: Op::BorrowLoc, srcs } => if srcs.len() >= 1 {
            seq![srcs[0]]
        } else {
            Seq::empty()
        },
        ValM::MCall { op: Op::Function(_, _), .. } => Seq::empty(),
        ValM::MCall { .. } => kids_conditions(t.kids, 0),
        ValM::MConst(_) => Seq::empty(),
        ValM::MParam(_) => Seq::empty(),
        ValM::MAssign { src, kind } => match kind {
            AssignKind::CopyVal => seq![src],
            AssignKind::MoveVal => seq![src],
            AssignKind::StoreVal => Seq::empty(),
        },
    }
}

pub open spec fn kids_conditions(s: Seq<TreeN>, k: int) -> Seq<usize>
    decreases s, s.len() - k,
{
    if k < 0 || k >= s.len() {
        Seq::empty()
    } else {
        spec_conditions(s[k]) + kids_conditions(s, k + 1)
    }
}

/// The argument slots of every reachable nested call operation in a denoted
/// tree.
pub open spec fn spec_params(t: TreeN) -> Seq<usize>
    decreases t, 0int,
{
    match t.val {
        ValM::MCall { op: Op::BorrowLoc, .. } => Seq::empty(),
        ValM::MCall { op: Op::Function(_, _), srcs } => srcs,
        ValM::MCall { .. } => kids_params(t.kids, 0),
        ValM::MConst(_) => Seq::empty(),
        ValM::MParam(_) => Seq::empty(),
        ValM::MAssign { .. } => Seq::empty(),
    }
}

pub open spec fn kids_params(s: Seq<TreeN>, k: int) -> Seq<usize>
    decreases s, s.len() - k,
{
    if k < 0 || k >= s.len() {
        Seq::empty()
    } else {
        spec_params(s[k]) + kids_params(s, k + 1)
    }
}

impl Node {
    /// Collects into `conditions` every slot that drives a reachable
    /// local-borrow (or a root copy/move assignment), and into `params` every
    /// argument slot of a reachable nested call.
    pub fn loop_condition_from_copy(
        &self,
        conditions: &mut Vec<usize>,
        params: &mut VecDeque<usize>,
    )
        requires
            twf(self.tree()),
        ensures
            final(conditions)@ == old(conditions)@ + spec_conditions(self.tree()),
            final(params)@ == old(params)@ + spec_params(self.tree()),
        decreases *self,
    {
        let ghost t = self.tree();
        match &self.value {
            Val::ByteCode(op, srcs) => {
                match op {
                    Op::BorrowLoc => {
                        proof {
                            assert(t.val is MCall && t.val->MCall_srcs.len() >= 1);
                        }
                        conditions.push(srcs[0]);
                        proof {
                            assert(conditions@ =~= old(conditions)@ + spec_conditions(t));
                            assert(params@ =~= old(params)@ + spec_params(t));
                        }
                    },
                    Op::Function(_, _) => {
                        let mut j: usize = 0;
                        while j < srcs.len()
                            invariant
                                0 <= j <= srcs.len(),
                                params@ == old(params)@ + srcs@.subrange(0, j as int),
                                conditions@ == old(conditions)@,
                            decreases srcs.len() - j,
                        {
                            params.push_back(srcs[j]);
                            proof {
                                assert(params@ =~= old(params)@ + srcs@.subrange(0, j + 1 as int));
                            }
                            j += 1;
                        }
                        proof {
                            assert(srcs@.subrange(0, srcs@.len() as int) =~= srcs@);
                            assert(conditions@ =~= old(conditions)@ + spec_conditions(t));
                        }
                    },
                    _ => {
                        let ghost kt = t.kids;
                        proof {
                            lemma_trees_of(self.subnodes@);
                            lemma_all_twf(kt);
                        }
                        let mut k: usize = 0;
                        while k < self.subnodes.len()
                            invariant
                                0 <= k <= self.subnodes.len(),
                                kt == trees_of(self.subnodes@),
                                kt.len() == self.subnodes@.len(),
                                forall|i: int| 0 <= i < self.subnodes@.len() ==> kt[i]
                                    == self.subnodes@[i].tree(),
                                forall|i: int| 0 <= i < kt.len() ==> twf(kt[i]),
                                conditions@ + kids_conditions(kt, k as int) == old(conditions)@
                                    + kids_conditions(kt, 0),
                                params@ + kids_params(kt, k as int) == old(params)@ + kids_params(
                                    kt,
                                    0,
                                ),
                            decreases self.subnodes.len() - k,
                        {
                            let ghost cbefore = conditions@;
                            let ghost pbefore = params@;
                            self.subnodes[k].loop_condition_from_copy(conditions, params);
                            proof {
                                assert(conditions@ + kids_conditions(kt, k + 1 as int) =~= cbefore
                                    + kids_conditions(kt, k as int));
                                assert(params@ + kids_params(kt, k + 1 as int) =~= pbefore
                                    + kids_params(kt, k as int));
                            }
                            k += 1;
                        }
                        proof {
                            assert(conditions@ =~= old(conditions)@ + spec_conditions(t));
                            assert(params@ =~= old(params)@ + spec_params(t));
                        }
                    },
                }
            },
            Val::Const(_) => {
                proof {
                    assert(conditions@ =~= old(conditions)@ + spec_conditions(t));
                    assert(params@ =~= old(params)@ + spec_params(t));
                }
            },
            Val::ParamType(_) => {
                proof {
                    assert(conditions@ =~= old(conditions)@ + spec_conditions(t));
                    assert(params@ =~= old(params)@ + spec_params(t));
                }
            },
            Val::AssIgn(src, kind) => {
                match kind {
                    AssignKind::CopyVal => {
                        conditions.push(*src);
                    },
                    AssignKind::MoveVal => {
                        conditions.push(*src);
                    },
                    AssignKind::StoreVal => {},
                }
                proof {
                    assert(conditions@ =~= old(conditions)@ + spec_conditions(t));
                    assert(params@ =~= old(params)@ + spec_params(t));
                }
            },
        }
    }
}

/// A deep copy of a node list; it denotes the same trees.
pub fn clone_nodes(v: &Vec<Node>) -> (r: Vec<Node>)
    ensures
        trees_of(r@) == trees_of(v@),
{
    let mut r: Vec<Node> = Vec::new();
    let mut k: usize = 0;
    while k < v.len()
        invariant
            0 <= k <= v.len(),
            r@.len() == k,
            forall|i: int| 0 <= i < k ==> r@[i].tree() == v@[i].tree(),
        decreases v.len() - k,
    {
        let c = clone_node(&v[k]);
        r.push(c);
        k += 1;
    }
    proof {
        lemma_trees_of(r@);
        lemma_trees_of(v@);
        assert(trees_of(r@) =~= trees_of(v@));
    }
    r
}

} // verus!


