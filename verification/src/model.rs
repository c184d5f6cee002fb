//! The data model the engine consumes: integer widths, declared local types,
//! constants, operation codes, instructions, and per-function metadata. The
//! bytecode-generation front end that produces these values is an external
//! collaborator; the engine only reads them.

use vstd::prelude::*;

verus! {

/// An unsigned integer width of the bytecode's type system.
#[derive(Clone, Copy, PartialEq, Eq, Structural, Debug)]
pub enum Width {
    W8,
    W16,
    W32,
    W64,
    W128,
    W256,
}

/// The largest value an integer of width `w` can hold.
pub open spec fn width_max(w: Width) -> nat {
    match w {
        Width::W8 => 0xff,
        Width::W16 => 0xffff,
        Width::W32 => 0xffff_ffff,
        Width::W64 => 0xffff_ffff_ffff_ffff,
        Width::W128 => 0xffff_ffff_ffff_ffff_ffff_ffff_ffff_ffffnat,
        Width::W256 => (crate::u256::u256_span() - 1) as nat,
    }
}

/// The declared type of a function-local slot, as far as the engine reads it.
#[derive(Debug)]
pub enum VarType {
    Uint(Width),
    Bool,
    Address,
    Signer,
    Ref(bool, Box<VarType>),
    Other,
}

/// An immediate literal loaded by a load-constant instruction.
#[derive(Clone, Copy, Debug)]
pub enum ConstVal {
    Uint(Width, ethnum::U256),
    Bool(bool),
    Other,
}

/// The flavour of a copy/move/store assignment.
#[derive(Clone, Copy, PartialEq, Eq, Structural, Debug)]
pub enum AssignKind {
    CopyVal,
    MoveVal,
    StoreVal,
}

/// The operation code of a call-form instruction.
#[derive(Clone, Copy, PartialEq, Eq, Structural, Debug)]
pub enum Op {
    Add,
    Sub,
    Mul,
    Div,
    Mod,
    BitOr,
    BitAnd,
    Xor,
    Shl,
    Shr,
    Lt,
    Gt,
    Le,
    Ge,
    Or,
    And,
    Eq,
    Neq,
    Not,
    Cast(Width),
    /// module handle index, struct identity
    Pack(usize, usize),
    Unpack(usize, usize),
    BorrowLoc,
    BorrowField,
    BorrowGlobal,
    ReadRef,
    FreezeRef,
    Exists,
    MoveFrom,
    MoveTo,
    WriteRef,
    /// module handle index, callee function identity
    Function(usize, usize),
    Other,
}

/// One instruction of a function's stackless bytecode.
#[derive(Debug)]
pub enum Instr {
    /// destination slot, source slot, kind
    Assign(usize, usize, AssignKind),
    /// destination slots, operation, source slots
    Call(Vec<usize>, Op, Vec<usize>),
    /// destination slot, literal
    Load(usize, ConstVal),
    /// returned slots
    Ret(Vec<usize>),
    /// condition slot
    Branch(usize),
    /// condition slot
    Abort(usize),
    Nop,
}

/// The declared visibility of a function.
#[derive(Clone, Copy, PartialEq, Eq, Structural, Debug)]
pub enum Visibility {
    Public,
    Friend,
    Private,
}

/// One function as the front end hands it to the engine.
pub struct FunctionInfo {
    pub name: String,
    pub visibility: Visibility,
    pub is_native: bool,
    /// the first `param_count` slots are the declared parameters
    pub param_count: usize,
    pub local_types: Vec<VarType>,
    /// source-level name of each local slot
    pub local_names: Vec<String>,
    pub code: Vec<Instr>,
}

/// One declared struct of a module, as far as the detectors read it.
pub struct StructInfo {
    pub name: String,
    pub has_copy: bool,
}

} // verus!

