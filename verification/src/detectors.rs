//! Detectors over the engine's per-function summaries: each scans the bytecode
//! of every non-native function of every analyzed module and reports the names
//! of functions matching its pattern.

use vstd::prelude::*;
use vstd::string::StringExecFns;
use crate::model::{FunctionInfo, Instr, Op, VarType, Visibility};
use crate::builder::StacklessBytecodeGenerator;

verus! {

/// How severe a finding of a detector is.
#[derive(Clone, Copy, PartialEq, Eq, Structural, Debug)]
pub enum Severity {
    Minor,
    Medium,
    Major,
}

/// Which pattern a detector reports.
#[derive(Clone, Copy, PartialEq, Eq, Structural, Debug)]
pub enum DetectKind {
    UncheckedZero,
    UnnecessaryEmit,
    UnnecessaryAccessControl,
    UnnecessaryWitnessCope,
}

/// A detector's findings: per analyzed module, the names of the matching
/// functions.
pub struct DetectContent {
    pub severity: Severity,
    pub kind: DetectKind,
    pub result: Vec<(String, Vec<String>)>,
}

impl DetectContent {
    pub fn new(severity: Severity, kind: DetectKind) -> (r: DetectContent)
        ensures
            r.severity == severity,
            r.kind == kind,
            r.result@.len() == 0,
    {
        DetectContent { severity, kind, result: Vec::new() }
    }
}

/// The analyzed modules a detector runs over.
pub struct Packages {
    pub stbgrs: Vec<StacklessBytecodeGenerator>,
}

impl Packages {
    pub fn get_all_stbgr(&self) -> (r: &Vec<StacklessBytecodeGenerator>)
        ensures
            r == &self.stbgrs,
    {
        &self.stbgrs
    }
}

/// Whether `p` occurs as a contiguous substring of `s`.
pub open spec fn spec_str_contains(s: Seq<char>, p: Seq<char>) -> bool {
    exists|i: int| 0 <= i && i + p.len() <= s.len() && #[trigger] s.subrange(i, i + p.len()) == p
}

/// Relies on str::contains with a `&str` pattern: true exactly when the
/// pattern occurs as a contiguous substring.
#[verifier::external_body]
pub fn str_contains(s: &str, p: &str) -> (r: bool)
    ensures
        r == spec_str_contains(s@, p@),
{
    s.contains(p)
}

/// The interned display name of the callee identity `fid`; empty when the
/// identity is unknown to the table.
pub open spec fn sym_name(symbols: Seq<String>, fid: usize) -> Seq<char> {
    if (fid as int) < symbols.len() {
        symbols[fid as int]@
    } else {
        Seq::empty()
    }
}

pub fn sym_string(symbols: &Vec<String>, fid: usize) -> (r: String)
    ensures
        r@ == sym_name(symbols@, fid),
{
    if fid < symbols.len() {
        symbols[fid].clone()
    } else {
        String::new()
    }
}

/// The sequence of views of a list of strings.
pub open spec fn views_of(s: Seq<String>) -> Seq<Seq<char>> {
    s.map_values(|x: String| x@)
}

/// Whether the declared type is a reference to a signer.
pub open spec fn spec_matches_signer(t: VarType) -> bool {
    match t {
        VarType::Ref(_, inner) => *inner == VarType::Signer,
        _ => false,
    }
}

pub fn matches_signer_type(param_type: &VarType) -> (r: bool)
    ensures
        r == spec_matches_signer(*param_type),
{
    match param_type {
        VarType::Ref(_, inner) => match &**inner {
            VarType::Signer => true,
            _ => false,
        },
        _ => false,
    }
}


// ---------------------------------------------------------------------------
// Missing zero-check detector
// ---------------------------------------------------------------------------

/// The scan state of the missing-zero-check pass over one function.
pub struct ZeroScan {
    pub op_found: bool,
    pub var: Option<usize>,
    pub check: bool,
    pub internal: bool,
}

pub open spec fn zero_scan_start() -> ZeroScan {
    ZeroScan { op_found: false, var: Option::None, check: false, internal: false }
}

/// One instruction of the scan: liquidity calls set the flags, assignments
/// track the liquidity variable through copies, branches and aborts on the
/// tracked variable count as the check.
pub open spec fn zero_scan_step(
    st: ZeroScan,
    instr: Instr,
    names: Seq<String>,
    symbols: Seq<String>,
) -> ZeroScan {
    match instr {
        Instr::Call(_, op, _) => match op {
            Op::Function(_, fid) => {
                let n = sym_name(symbols, fid);
                ZeroScan {
                    internal: st.internal || spec_str_contains(n, "intra_add_liquidity"@)
                        || spec_str_contains(n, "add_liquidity_internal"@),
                    op_found: st.op_found || spec_str_contains(n, "add_liquidity"@),
                    ..st
                }
            },
            _ => st,
        },
        Instr::Assign(dst, src, _) => match st.var {
            Option::Some(v) => if src == v {
                ZeroScan { var: Option::Some(dst), ..st }
            } else {
                st
            },
            Option::None => if (dst as int) < names.len() && spec_str_contains(
                names[dst as int]@,
                "liquidity"@,
            ) {
                ZeroScan { var: Option::Some(dst), ..st }
            } else {
                st
            },
        },
        Instr::Branch(cond) => match st.var {
            Option::Some(v) => if cond == v {
                ZeroScan { check: true, ..st }
            } else {
                st
            },
            Option::None => st,
        },
        Instr::Abort(cond) => match st.var {
            Option::Some(v) => if cond == v {
                ZeroScan { check: true, ..st }
            } else {
                st
            },
            Option::None => st,
        },
        _ => st,
    }
}

pub open spec fn zero_scan(
    code: Seq<Instr>,
    k: int,
    st: ZeroScan,
    names: Seq<String>,
    symbols: Seq<String>,
) -> ZeroScan
    decreases code.len() - k,
{
    if k < 0 || k >= code.len() {
        st
    } else {
        zero_scan(code, k + 1, zero_scan_step(st, code[k], names, symbols), names, symbols)
    }
}

/// The verdict on one function: reported when a liquidity operation was found,
/// no branch or abort tested the tracked liquidity variable, and no internal
/// add-liquidity helper was called.
pub open spec fn spec_detect_zero(f: FunctionInfo, symbols: Seq<String>) -> Option<Seq<char>> {
    let st = zero_scan(f.code@, 0, zero_scan_start(), f.local_names@, symbols);
    if st.internal {
        Option::None
    } else if st.op_found && !st.check {
        Option::Some(f.name@ + ": Missing 'liquidity > 0' check for liquidity"@)
    } else {
        Option::None
    }
}

/// The reported names of one module, in function order.
pub open spec fn det9_findings(g: StacklessBytecodeGenerator, k: int) -> Seq<Seq<char>>
    decreases g.functions@.len() - k,
{
    if k < 0 || k >= g.functions@.len() {
        Seq::empty()
    } else {
        let rest = det9_findings(g, k + 1);
        let f = g.functions@[k];
        if !f.is_native && spec_detect_zero(f, g.symbols@) is Some {
            seq![spec_detect_zero(f, g.symbols@).unwrap()] + rest
        } else {
            rest
        }
    }
}

/// Flags functions that perform a liquidity operation without checking the
/// liquidity amount.
pub struct Detector9 {
    pub content: DetectContent,
}

impl Detector9 {
    pub fn new() -> (r: Detector9)
        ensures
            r.content.severity == Severity::Minor,
            r.content.kind == DetectKind::UncheckedZero,
            r.content.result@.len() == 0,
    {
        Detector9 { content: DetectContent::new(Severity::Minor, DetectKind::UncheckedZero) }
    }

    /// The scan of one function, exactly as `spec_detect_zero` says.
    pub fn detect_missing_zero_check(
        &self,
        function: &FunctionInfo,
        stbgr: &StacklessBytecodeGenerator,
    ) -> (r: Option<String>)
        ensures
            r is Some <==> spec_detect_zero(*function, stbgr.symbols@) is Some,
            r is Some ==> r.unwrap()@ == spec_detect_zero(*function, stbgr.symbols@).unwrap(),
    {
        let ghost fs = zero_scan(
            function.code@,
            0,
            zero_scan_start(),
            function.local_names@,
            stbgr.symbols@,
        );
        let mut liquidity_op_found = false;
        let mut liquidity_var: Option<usize> = Option::None;
        let mut liquidity_check_found = false;
        let mut add_liquidity_called = false;
        let mut j: usize = 0;
        while j < function.code.len()
            invariant
                0 <= j <= function.code@.len(),
                fs == zero_scan(
                    function.code@,
                    j as int,
                    ZeroScan {
                        op_found: liquidity_op_found,
                        var: liquidity_var,
                        check: liquidity_check_found,
                        internal: add_liquidity_called,
                    },
                    function.local_names@,
                    stbgr.symbols@,
                ),
            decreases function.code@.len() - j,
        {
            match &function.code[j] {
                Instr::Call(_, op, _) => {
                    match op {
                        Op::Function(_, fid) => {
                            let fun_name = sym_string(&stbgr.symbols, *fid);
                            if str_contains(fun_name.as_str(), "intra_add_liquidity")
                                || str_contains(fun_name.as_str(), "add_liquidity_internal") {
                                add_liquidity_called = true;
                            }
                            if str_contains(fun_name.as_str(), "add_liquidity") {
                                liquidity_op_found = true;
                            }
                        },
                        _ => {},
                    }
                },
                Instr::Assign(dst, src, _) => {
                    match liquidity_var {
                        Option::Some(v) => {
                            if *src == v {
                                liquidity_var = Option::Some(*dst);
                            }
                        },
                        Option::None => {
                            if *dst < function.local_names.len() {
                                let var_name = &function.local_names[*dst];
                                if str_contains(var_name.as_str(), "liquidity") {
                                    liquidity_var = Option::Some(*dst);
                                }
                            }
                        },
                    }
                },
                Instr::Branch(cond) => {
                    match liquidity_var {
                        Option::Some(v) => {
                            if *cond == v {
                                liquidity_check_found = true;
                            }
                        },
                        Option::None => {},
                    }
                },
                Instr::Abort(cond) => {
                    match liquidity_var {
                        Option::Some(v) => {
                            if *cond == v {
                                liquidity_check_found = true;
                            }
                        },
                        Option::None => {},
                    }
                },
                _ => {},
            }
            j += 1;
        }
        if add_liquidity_called {
            return Option::None;
        }
        if liquidity_op_found && !liquidity_check_found {
            let msg = function.name.clone().concat(
                ": Missing 'liquidity > 0' check for liquidity",
            );
            Option::Some(msg)
        } else {
            Option::None
        }
    }

    /// Scans every non-native function of every module and records the
    /// reported names per module, keyed by the module's first name.
    pub fn run(&mut self, packages: &Packages)
        requires
            crate::builder::others_wf(packages.stbgrs@),
        ensures
            final(self).content.severity == old(self).content.severity,
            final(self).content.kind == old(self).content.kind,
            final(self).content.result@.len() == packages.stbgrs@.len(),
            forall|m: int| 0 <= m < packages.stbgrs@.len() ==> {
                &&& (#[trigger] final(self).content.result@[m]).0@
                    == packages.stbgrs@[m].module_names@[0]@
                &&& views_of(final(self).content.result@[m].1@) == det9_findings(
                    packages.stbgrs@[m],
                    0,
                )
            },
    {
        self.content.result = Vec::new();
        let stbgrs = packages.get_all_stbgr();
        let mut m: usize = 0;
        while m < stbgrs.len()
            invariant
                crate::builder::others_wf(stbgrs@),
                stbgrs == &packages.stbgrs,
                self.content.severity == old(self).content.severity,
                self.content.kind == old(self).content.kind,
                0 <= m <= stbgrs@.len(),
                self.content.result@.len() == m,
                forall|x: int| 0 <= x < m ==> {
                    &&& (#[trigger] self.content.result@[x]).0@
                        == stbgrs@[x].module_names@[0]@
                    &&& views_of(self.content.result@[x].1@) == det9_findings(stbgrs@[x], 0)
                },
            decreases stbgrs@.len() - m,
        {
            let stbgr = &stbgrs[m];
            proof {
                assert(crate::builder::gen_wf(stbgrs@[m as int]));
            }
            let mut findings: Vec<String> = Vec::new();
            let mut idx: usize = 0;
            while idx < stbgr.functions.len()
                invariant
                    0 <= idx <= stbgr.functions@.len(),
                    views_of(findings@) + det9_findings(*stbgr, idx as int) == det9_findings(
                        *stbgr,
                        0,
                    ),
                decreases stbgr.functions@.len() - idx,
            {
                let ghost before = views_of(findings@);
                let function = &stbgr.functions[idx];
                if !function.is_native {
                    match self.detect_missing_zero_check(function, stbgr) {
                        Option::Some(res) => {
                            findings.push(res);
                        },
                        Option::None => {},
                    }
                }
                proof {
                    assert(views_of(findings@) + det9_findings(*stbgr, idx + 1 as int)
                        =~= before + det9_findings(*stbgr, idx as int));
                }
                idx += 1;
            }
            proof {
                assert(views_of(findings@) =~= det9_findings(*stbgr, 0));
            }
            let key = stbgr.module_names[0].clone();
            self.content.result.push((key, findings));
            m += 1;
        }
    }
}


// ---------------------------------------------------------------------------
// Event-emit-without-state-update detector
// ---------------------------------------------------------------------------

/// Whether the instruction calls an event-emitting function.
pub open spec fn is_emit_call(i: Instr, symbols: Seq<String>) -> bool {
    match i {
        Instr::Call(_, op, _) => match op {
            Op::Function(_, fid) => spec_str_contains(sym_name(symbols, fid), "emit_event"@),
            _ => false,
        },
        _ => false,
    }
}

/// Whether a callee name suggests a fund movement or state update.
pub open spec fn state_update_name(n: Seq<char>) -> bool {
    ||| spec_str_contains(n, "withdraw"@)
    ||| spec_str_contains(n, "deposit"@)
    ||| spec_str_contains(n, "transfer"@)
    ||| spec_str_contains(n, "mint"@)
    ||| spec_str_contains(n, "burn"@)
    ||| spec_str_contains(n, "merge"@)
    ||| spec_str_contains(n, "extract"@)
    ||| spec_str_contains(n, "add"@)
    ||| spec_str_contains(n, "borrow_mut"@)
    ||| spec_str_contains(n, "push_back"@)
}

/// Whether the instruction updates state: a call to a state-updating function,
/// or a resource move.
pub open spec fn is_state_update(i: Instr, symbols: Seq<String>) -> bool {
    match i {
        Instr::Call(_, op, _) => match op {
            Op::Function(_, fid) => state_update_name(sym_name(symbols, fid)),
            Op::MoveTo => true,
            Op::MoveFrom => true,
            _ => false,
        },
        _ => false,
    }
}

pub open spec fn has_emit(code: Seq<Instr>, symbols: Seq<String>) -> bool {
    exists|j: int| 0 <= j < code.len() && is_emit_call(#[trigger] code[j], symbols)
}

pub open spec fn has_state_update(code: Seq<Instr>, symbols: Seq<String>) -> bool {
    exists|j: int| 0 <= j < code.len() && is_state_update(#[trigger] code[j], symbols)
}

/// Whether the instruction is a call to the function named `target`.
pub open spec fn is_call_to(i: Instr, symbols: Seq<String>, target: Seq<char>) -> bool {
    match i {
        Instr::Call(_, op, _) => match op {
            Op::Function(_, fid) => sym_name(symbols, fid) == target,
            _ => false,
        },
        _ => false,
    }
}

pub open spec fn calls_target(code: Seq<Instr>, symbols: Seq<String>, target: Seq<char>) -> bool {
    exists|j: int| 0 <= j < code.len() && is_call_to(#[trigger] code[j], symbols, target)
}

/// Whether some function of the module with a different name calls `target`.
pub open spec fn spec_called_by_others(g: StacklessBytecodeGenerator, target: Seq<char>) -> bool {
    exists|k: int| 0 <= k < g.functions@.len() && (#[trigger] g.functions@[k]).name@ != target
        && calls_target(g.functions@[k].code@, g.symbols@, target)
}

/// The verdict on one function: reported when it is public, emits an event,
/// performs no fund movement or state update, and is called by another
/// function of the module.
pub open spec fn spec_detect_emit(
    f: FunctionInfo,
    vis: Visibility,
    g: StacklessBytecodeGenerator,
) -> Option<Seq<char>> {
    if vis == Visibility::Public && has_emit(f.code@, g.symbols@) && !has_state_update(
        f.code@,
        g.symbols@,
    ) && spec_called_by_others(g, f.name@) {
        Option::Some(f.name@)
    } else {
        Option::None
    }
}

pub open spec fn det10_findings(g: StacklessBytecodeGenerator, k: int) -> Seq<Seq<char>>
    decreases g.functions@.len() - k,
{
    if k < 0 || k >= g.functions@.len() {
        Seq::empty()
    } else {
        let rest = det10_findings(g, k + 1);
        let f = g.functions@[k];
        if !f.is_native && spec_detect_emit(f, f.visibility, g) is Some {
            seq![spec_detect_emit(f, f.visibility, g).unwrap()] + rest
        } else {
            rest
        }
    }
}

/// Flags public functions that emit an event although they update no state.
pub struct Detector10 {
    pub content: DetectContent,
}

impl Detector10 {
    pub fn new() -> (r: Detector10)
        ensures
            r.content.severity == Severity::Minor,
            r.content.kind == DetectKind::UnnecessaryEmit,
            r.content.result@.len() == 0,
    {
        Detector10 { content: DetectContent::new(Severity::Minor, DetectKind::UnnecessaryEmit) }
    }

    /// Whether a function with a different name anywhere in the module calls
    /// the function named `target_func_name`.
    pub fn is_called_by_other_functions(
        &self,
        target_func_name: &String,
        stbgr: &StacklessBytecodeGenerator,
    ) -> (r: bool)
        ensures
            r == spec_called_by_others(*stbgr, target_func_name@),
    {
        let mut k: usize = 0;
        while k < stbgr.functions.len()
            invariant
                0 <= k <= stbgr.functions@.len(),
                forall|x: int| 0 <= x < k ==> !((#[trigger] stbgr.functions@[x]).name@
                    != target_func_name@ && calls_target(
                    stbgr.functions@[x].code@,
                    stbgr.symbols@,
                    target_func_name@,
                )),
            decreases stbgr.functions@.len() - k,
        {
            let function = &stbgr.functions[k];
            let same = function.name.clone() == target_func_name.clone();
            if !same {
                let mut j: usize = 0;
                while j < function.code.len()
                    invariant
                        0 <= j <= function.code@.len(),
                        function == &stbgr.functions@[k as int],
                        0 <= k < stbgr.functions@.len(),
                        function.name@ != target_func_name@,
                        forall|x: int| 0 <= x < j ==> !is_call_to(
                            #[trigger] function.code@[x],
                            stbgr.symbols@,
                            target_func_name@,
                        ),
                    decreases function.code@.len() - j,
                {
                    match &function.code[j] {
                        Instr::Call(_, op, _) => {
                            match op {
                                Op::Function(_, fid) => {
                                    let callee = sym_string(&stbgr.symbols, *fid);
                                    if callee == *target_func_name {
                                        return true;
                                    }
                                },
                                _ => {},
                            }
                        },
                        _ => {},
                    }
                    j += 1;
                }
            }
            k += 1;
        }
        false
    }

    /// The scan of one function, exactly as `spec_detect_emit` says.
    pub fn detect_event_emit_without_friend(
        &self,
        function_info: &FunctionInfo,
        visibility: &Visibility,
        stbgr: &StacklessBytecodeGenerator,
    ) -> (r: Option<String>)
        ensures
            r is Some <==> spec_detect_emit(*function_info, *visibility, *stbgr) is Some,
            r is Some ==> r.unwrap()@ == spec_detect_emit(
                *function_info,
                *visibility,
                *stbgr,
            ).unwrap(),
    {
        let is_public = match visibility {
            Visibility::Public => true,
            _ => false,
        };
        let mut contains_emit_event = false;
        let mut contains_state_update = false;
        let mut j: usize = 0;
        while j < function_info.code.len()
            invariant
                0 <= j <= function_info.code@.len(),
                contains_emit_event == exists|x: int| 0 <= x < j && is_emit_call(
                    #[trigger] function_info.code@[x],
                    stbgr.symbols@,
                ),
                contains_state_update == exists|x: int| 0 <= x < j && is_state_update(
                    #[trigger] function_info.code@[x],
                    stbgr.symbols@,
                ),
            decreases function_info.code@.len() - j,
        {
            match &function_info.code[j] {
                Instr::Call(_, op, _) => {
                    match op {
                        Op::Function(_, fid) => {
                            let fun_name = sym_string(&stbgr.symbols, *fid);
                            if str_contains(fun_name.as_str(), "emit_event") {
                                contains_emit_event = true;
                            }
                            if str_contains(fun_name.as_str(), "withdraw") || str_contains(
                                fun_name.as_str(),
                                "deposit",
                            ) || str_contains(fun_name.as_str(), "transfer") || str_contains(
                                fun_name.as_str(),
                                "mint",
                            ) || str_contains(fun_name.as_str(), "burn") || str_contains(
                                fun_name.as_str(),
                                "merge",
                            ) || str_contains(fun_name.as_str(), "extract") || str_contains(
                                fun_name.as_str(),
                                "add",
                            ) || str_contains(fun_name.as_str(), "borrow_mut") || str_contains(
                                fun_name.as_str(),
                                "push_back",
                            ) {
                                contains_state_update = true;
                            }
                        },
                        Op::MoveTo => {
                            contains_state_update = true;
                        },
                        Op::MoveFrom => {
                            contains_state_update = true;
                        },
                        _ => {},
                    }
                },
                _ => {},
            }
            j += 1;
        }
        if is_public && contains_emit_event && !contains_state_update {
            if self.is_called_by_other_functions(&function_info.name, stbgr) {
                return Option::Some(function_info.name.clone());
            }
        }
        Option::None
    }

    /// Scans every non-native function of every module and records the
    /// reported names per module, keyed by the module's first name.
    pub fn run(&mut self, packages: &Packages)
        requires
            crate::builder::others_wf(packages.stbgrs@),
        ensures
            final(self).content.severity == old(self).content.severity,
            final(self).content.kind == old(self).content.kind,
            final(self).content.result@.len() == packages.stbgrs@.len(),
            forall|m: int| 0 <= m < packages.stbgrs@.len() ==> {
                &&& (#[trigger] final(self).content.result@[m]).0@
                    == packages.stbgrs@[m].module_names@[0]@
                &&& views_of(final(self).content.result@[m].1@) == det10_findings(
                    packages.stbgrs@[m],
                    0,
                )
            },
    {
        self.content.result = Vec::new();
        let stbgrs = packages.get_all_stbgr();
        let mut m: usize = 0;
        while m < stbgrs.len()
            invariant
                crate::builder::others_wf(stbgrs@),
                stbgrs == &packages.stbgrs,
                self.content.severity == old(self).content.severity,
                self.content.kind == old(self).content.kind,
                0 <= m <= stbgrs@.len(),
                self.content.result@.len() == m,
                forall|x: int| 0 <= x < m ==> {
                    &&& (#[trigger] self.content.result@[x]).0@
                        == stbgrs@[x].module_names@[0]@
                    &&& views_of(self.content.result@[x].1@) == det10_findings(stbgrs@[x], 0)
                },
            decreases stbgrs@.len() - m,
        {
            let stbgr = &stbgrs[m];
            proof {
                assert(crate::builder::gen_wf(stbgrs@[m as int]));
            }
            let mut findings: Vec<String> = Vec::new();
            let mut idx: usize = 0;
            while idx < stbgr.functions.len()
                invariant
                    0 <= idx <= stbgr.functions@.len(),
                    views_of(findings@) + det10_findings(*stbgr, idx as int) == det10_findings(
                        *stbgr,
                        0,
                    ),
                decreases stbgr.functions@.len() - idx,
            {
                let ghost before = views_of(findings@);
                let function = &stbgr.functions[idx];
                if !function.is_native {
                    let visibility = &function.visibility;
                    match self.detect_event_emit_without_friend(function, visibility, stbgr) {
                        Option::Some(res) => {
                            findings.push(res);
                        },
                        Option::None => {},
                    }
                }
                proof {
                    assert(views_of(findings@) + det10_findings(*stbgr, idx + 1 as int)
                        =~= before + det10_findings(*stbgr, idx as int));
                }
                idx += 1;
            }
            proof {
                assert(views_of(findings@) =~= det10_findings(*stbgr, 0));
            }
            let key = stbgr.module_names[0].clone();
            self.content.result.push((key, findings));
            m += 1;
        }
    }
}


// ---------------------------------------------------------------------------
// Missing access-control detector
// ---------------------------------------------------------------------------

pub open spec fn has_signer(types: Seq<VarType>) -> bool {
    exists|i: int| 0 <= i < types.len() && spec_matches_signer(#[trigger] types[i])
}

/// Whether the instruction moves a resource (a fund transfer).
pub open spec fn is_fund_transfer(i: Instr) -> bool {
    match i {
        Instr::Call(_, op, _) => op == Op::MoveTo || op == Op::MoveFrom,
        _ => false,
    }
}

/// Whether the instruction calls an access-control assertion helper.
pub open spec fn is_access_control_call(i: Instr, symbols: Seq<String>) -> bool {
    match i {
        Instr::Call(_, op, _) => match op {
            Op::Function(_, fid) => {
                let n = sym_name(symbols, fid);
                spec_str_contains(n, "assert_admin"@) || spec_str_contains(n, "assert_owner"@)
                    || spec_str_contains(n, "require_admin"@)
            },
            _ => false,
        },
        _ => false,
    }
}

/// Whether the instruction branches or aborts on a signer-typed local or on a
/// slot tracked by the function's dependency table.
pub open spec fn is_signer_assertion(
    i: Instr,
    types: Seq<VarType>,
    table: Map<int, crate::node::TreeN>,
) -> bool {
    match i {
        Instr::Branch(cond) => ((cond as int) < types.len() && spec_matches_signer(
            types[cond as int],
        )) || table.contains_key(cond as int),
        Instr::Abort(cond) => ((cond as int) < types.len() && spec_matches_signer(
            types[cond as int],
        )) || table.contains_key(cond as int),
        _ => false,
    }
}

pub open spec fn has_fund_transfer(code: Seq<Instr>) -> bool {
    exists|j: int| 0 <= j < code.len() && is_fund_transfer(#[trigger] code[j])
}

pub open spec fn has_access_control(code: Seq<Instr>, symbols: Seq<String>) -> bool {
    exists|j: int| 0 <= j < code.len() && is_access_control_call(#[trigger] code[j], symbols)
}

pub open spec fn has_signer_assertion(
    code: Seq<Instr>,
    types: Seq<VarType>,
    table: Map<int, crate::node::TreeN>,
) -> bool {
    exists|j: int| 0 <= j < code.len() && is_signer_assertion(#[trigger] code[j], types, table)
}

/// The verdict on one function: reported when it takes a signer reference,
/// moves a resource, asserts nothing over the tracked slots, and calls no
/// access-control helper.
pub open spec fn spec_detect_access(
    f: FunctionInfo,
    symbols: Seq<String>,
    table: Map<int, crate::node::TreeN>,
) -> Option<Seq<char>> {
    if !has_signer(f.local_types@) {
        Option::None
    } else if has_fund_transfer(f.code@) && !has_signer_assertion(f.code@, f.local_types@, table)
        && !has_access_control(f.code@, symbols) {
        Option::Some(f.name@)
    } else {
        Option::None
    }
}

pub open spec fn det11_findings(g: StacklessBytecodeGenerator, k: int) -> Seq<Seq<char>>
    decreases g.functions@.len() - k,
{
    if k < 0 || k >= g.functions@.len() {
        Seq::empty()
    } else {
        let rest = det11_findings(g, k + 1);
        let f = g.functions@[k];
        if !f.is_native && k < g.data_dependency@.len() && spec_detect_access(
            f,
            g.symbols@,
            g.data_dependency@[k]@,
        ) is Some {
            seq![spec_detect_access(f, g.symbols@, g.data_dependency@[k]@).unwrap()] + rest
        } else {
            rest
        }
    }
}

/// Flags functions that move resources on behalf of a signer without any
/// access-control assertion.
pub struct Detector11 {
    pub content: DetectContent,
}

impl Detector11 {
    pub fn new() -> (r: Detector11)
        ensures
            r.content.severity == Severity::Minor,
            r.content.kind == DetectKind::UnnecessaryAccessControl,
            r.content.result@.len() == 0,
    {
        Detector11 {
            content: DetectContent::new(Severity::Minor, DetectKind::UnnecessaryAccessControl),
        }
    }

    /// The scan of one function, exactly as `spec_detect_access` says; `idx`
    /// is the function's position, used to look up its dependency table.
    pub fn detect_missing_access_control_assertion(
        &self,
        function: &FunctionInfo,
        idx: usize,
        stbgr: &StacklessBytecodeGenerator,
    ) -> (r: Option<String>)
        requires
            idx < stbgr.data_dependency@.len(),
        ensures
            r is Some <==> spec_detect_access(
                *function,
                stbgr.symbols@,
                stbgr.data_dependency@[idx as int]@,
            ) is Some,
            r is Some ==> r.unwrap()@ == spec_detect_access(
                *function,
                stbgr.symbols@,
                stbgr.data_dependency@[idx as int]@,
            ).unwrap(),
    {
        let data_depent = &stbgr.data_dependency[idx];
        let mut signer_found = false;
        let mut i: usize = 0;
        while i < function.local_types.len()
            invariant
                0 <= i <= function.local_types@.len(),
                signer_found == exists|x: int| 0 <= x < i && spec_matches_signer(
                    #[trigger] function.local_types@[x],
                ),
            decreases function.local_types@.len() - i,
        {
            if matches_signer_type(&function.local_types[i]) {
                signer_found = true;
            }
            i += 1;
        }
        if !signer_found {
            return Option::None;
        }
        let mut found_assertion = false;
        let mut found_access_control = false;
        let mut fund_transfer_found = false;
        let mut j: usize = 0;
        while j < function.code.len()
            invariant
                0 <= j <= function.code@.len(),
                idx < stbgr.data_dependency@.len(),
                data_depent == &stbgr.data_dependency@[idx as int],
                fund_transfer_found == exists|x: int| 0 <= x < j && is_fund_transfer(
                    #[trigger] function.code@[x],
                ),
                found_access_control == exists|x: int| 0 <= x < j && is_access_control_call(
                    #[trigger] function.code@[x],
                    stbgr.symbols@,
                ),
                found_assertion == exists|x: int| 0 <= x < j && is_signer_assertion(
                    #[trigger] function.code@[x],
                    function.local_types@,
                    data_depent@,
                ),
            decreases function.code@.len() - j,
        {
            match &function.code[j] {
                Instr::Call(_, op, _) => {
                    match op {
                        Op::MoveTo => {
                            fund_transfer_found = true;
                        },
                        Op::MoveFrom => {
                            fund_transfer_found = true;
                        },
                        Op::Function(_, fid) => {
                            let fun_name = sym_string(&stbgr.symbols, *fid);
                            if str_contains(fun_name.as_str(), "assert_admin") || str_contains(
                                fun_name.as_str(),
                                "assert_owner",
                            ) || str_contains(fun_name.as_str(), "require_admin") {
                                found_access_control = true;
                            }
                        },
                        _ => {},
                    }
                },
                Instr::Branch(cond) => {
                    let signer_slot = *cond < function.local_types.len() && matches_signer_type(
                        &function.local_types[*cond],
                    );
                    if signer_slot || data_depent.contains(*cond) {
                        found_assertion = true;
                    }
                },
                Instr::Abort(cond) => {
                    let signer_slot = *cond < function.local_types.len() && matches_signer_type(
                        &function.local_types[*cond],
                    );
                    if signer_slot || data_depent.contains(*cond) {
                        found_assertion = true;
                    }
                },
                _ => {},
            }
            j += 1;
        }
        if fund_transfer_found && !found_assertion && !found_access_control {
            Option::Some(function.name.clone())
        } else {
            Option::None
        }
    }

    /// Scans every non-native function of every module and records the
    /// reported names per module, keyed by the module's first name.
    pub fn run(&mut self, packages: &Packages)
        requires
            crate::builder::others_wf(packages.stbgrs@),
        ensures
            final(self).content.severity == old(self).content.severity,
            final(self).content.kind == old(self).content.kind,
            final(self).content.result@.len() == packages.stbgrs@.len(),
            forall|m: int| 0 <= m < packages.stbgrs@.len() ==> {
                &&& (#[trigger] final(self).content.result@[m]).0@
                    == packages.stbgrs@[m].module_names@[0]@
                &&& views_of(final(self).content.result@[m].1@) == det11_findings(
                    packages.stbgrs@[m],
                    0,
                )
            },
    {
        self.content.result = Vec::new();
        let stbgrs = packages.get_all_stbgr();
        let mut m: usize = 0;
        while m < stbgrs.len()
            invariant
                crate::builder::others_wf(stbgrs@),
                stbgrs == &packages.stbgrs,
                self.content.severity == old(self).content.severity,
                self.content.kind == old(self).content.kind,
                0 <= m <= stbgrs@.len(),
                self.content.result@.len() == m,
                forall|x: int| 0 <= x < m ==> {
                    &&& (#[trigger] self.content.result@[x]).0@
                        == stbgrs@[x].module_names@[0]@
                    &&& views_of(self.content.result@[x].1@) == det11_findings(stbgrs@[x], 0)
                },
            decreases stbgrs@.len() - m,
        {
            let stbgr = &stbgrs[m];
            proof {
                assert(crate::builder::gen_wf(stbgrs@[m as int]));
            }
            let mut findings: Vec<String> = Vec::new();
            let mut idx: usize = 0;
            while idx < stbgr.functions.len()
                invariant
                    0 <= idx <= stbgr.functions@.len(),
                    crate::builder::gen_wf(*stbgr),
                    views_of(findings@) + det11_findings(*stbgr, idx as int) == det11_findings(
                        *stbgr,
                        0,
                    ),
                decreases stbgr.functions@.len() - idx,
            {
                let ghost before = views_of(findings@);
                let function = &stbgr.functions[idx];
                if !function.is_native {
                    match self.detect_missing_access_control_assertion(function, idx, stbgr) {
                        Option::Some(res) => {
                            findings.push(res);
                        },
                        Option::None => {},
                    }
                }
                proof {
                    assert(views_of(findings@) + det11_findings(*stbgr, idx + 1 as int)
                        =~= before + det11_findings(*stbgr, idx as int));
                }
                idx += 1;
            }
            proof {
                assert(views_of(findings@) =~= det11_findings(*stbgr, 0));
            }
            let key = stbgr.module_names[0].clone();
            self.content.result.push((key, findings));
            m += 1;
        }
    }
}

// ---------------------------------------------------------------------------
// Witness-copy detector
// ---------------------------------------------------------------------------

/// Whether the instruction packs the `Witness` struct of the target module
/// although that struct has the copy ability.
pub open spec fn is_witness_pack(
    i: Instr,
    target_mid: usize,
    structs: Seq<crate::model::StructInfo>,
) -> bool {
    match i {
        Instr::Call(_, op, _) => match op {
            Op::Pack(m, sid) => m == target_mid && (sid as int) < structs.len()
                && structs[sid as int].name@ == "Witness"@ && structs[sid as int].has_copy,
            _ => false,
        },
        _ => false,
    }
}

/// The verdict on one function: reported when some instruction packs a
/// copyable `Witness` of the target module.
pub open spec fn spec_detect_witness(
    f: FunctionInfo,
    target_mid: usize,
    structs: Seq<crate::model::StructInfo>,
) -> Option<Seq<char>> {
    if exists|j: int| 0 <= j < f.code@.len() && is_witness_pack(
        #[trigger] f.code@[j],
        target_mid,
        structs,
    ) {
        Option::Some(f.name@)
    } else {
        Option::None
    }
}

pub open spec fn det12_findings(
    g: StacklessBytecodeGenerator,
    target_mid: usize,
    k: int,
) -> Seq<Seq<char>>
    decreases g.functions@.len() - k,
{
    if k < 0 || k >= g.functions@.len() {
        Seq::empty()
    } else {
        let rest = det12_findings(g, target_mid, k + 1);
        let f = g.functions@[k];
        if !f.is_native && spec_detect_witness(f, target_mid, g.structs@) is Some {
            seq![spec_detect_witness(f, target_mid, g.structs@).unwrap()] + rest
        } else {
            rest
        }
    }
}

/// Flags functions that pack a witness struct which carries the copy ability.
pub struct Detector12 {
    pub content: DetectContent,
    pub target_module_id: usize,
}

impl Detector12 {
    pub fn new() -> (r: Detector12)
        ensures
            r.content.severity == Severity::Minor,
            r.content.kind == DetectKind::UnnecessaryWitnessCope,
            r.content.result@.len() == 0,
            r.target_module_id == 0,
    {
        Detector12 {
            content: DetectContent::new(Severity::Minor, DetectKind::UnnecessaryWitnessCope),
            target_module_id: 0,
        }
    }

    /// The struct-table position of the struct with identity `struct_id`; in
    /// this model identities index the table directly.
    pub fn get_struct_handle_index(
        &self,
        struct_id: usize,
        stbgr: &StacklessBytecodeGenerator,
    ) -> (r: Option<usize>)
        ensures
            r is Some <==> (struct_id as int) < stbgr.structs@.len(),
            r is Some ==> r.unwrap() == struct_id,
    {
        if struct_id < stbgr.structs.len() {
            Option::Some(struct_id)
        } else {
            Option::None
        }
    }

    /// Whether the struct at `struct_handle_index` is named `Witness` and has
    /// the copy ability.
    pub fn is_witness_struct_with_copy_ability(
        &self,
        struct_handle_index: usize,
        stbgr: &StacklessBytecodeGenerator,
    ) -> (r: bool)
        requires
            (struct_handle_index as int) < stbgr.structs@.len(),
        ensures
            r == (stbgr.structs@[struct_handle_index as int].name@ == "Witness"@
                && stbgr.structs@[struct_handle_index as int].has_copy),
    {
        let witness = String::from_str("Witness");
        let same = stbgr.structs[struct_handle_index].name == witness;
        same && stbgr.structs[struct_handle_index].has_copy
    }

    /// The scan of one function, exactly as `spec_detect_witness` says.
    pub fn detect_witness_copy(
        &self,
        function: &FunctionInfo,
        stbgr: &StacklessBytecodeGenerator,
    ) -> (r: Option<String>)
        ensures
            r is Some <==> spec_detect_witness(
                *function,
                self.target_module_id,
                stbgr.structs@,
            ) is Some,
            r is Some ==> r.unwrap()@ == spec_detect_witness(
                *function,
                self.target_module_id,
                stbgr.structs@,
            ).unwrap(),
    {
        let mut j: usize = 0;
        while j < function.code.len()
            invariant
                0 <= j <= function.code@.len(),
                forall|x: int| 0 <= x < j ==> !is_witness_pack(
                    #[trigger] function.code@[x],
                    self.target_module_id,
                    stbgr.structs@,
                ),
            decreases function.code@.len() - j,
        {
            match &function.code[j] {
                Instr::Call(_, op, _) => {
                    match op {
                        Op::Pack(module_id, struct_id) => {
                            if *module_id == self.target_module_id {
                                match self.get_struct_handle_index(*struct_id, stbgr) {
                                    Option::Some(shi) => {
                                        if self.is_witness_struct_with_copy_ability(shi, stbgr) {
                                            return Option::Some(function.name.clone());
                                        }
                                    },
                                    Option::None => {},
                                }
                            }
                        },
                        _ => {},
                    }
                },
                _ => {},
            }
            j += 1;
        }
        Option::None
    }

    /// Scans every non-native function of every module and records the
    /// reported names per module, keyed by the module's first name.
    pub fn run(&mut self, packages: &Packages)
        requires
            crate::builder::others_wf(packages.stbgrs@),
        ensures
            final(self).content.severity == old(self).content.severity,
            final(self).content.kind == old(self).content.kind,
            final(self).target_module_id == old(self).target_module_id,
            final(self).content.result@.len() == packages.stbgrs@.len(),
            forall|m: int| 0 <= m < packages.stbgrs@.len() ==> {
                &&& (#[trigger] final(self).content.result@[m]).0@
                    == packages.stbgrs@[m].module_names@[0]@
                &&& views_of(final(self).content.result@[m].1@) == det12_findings(
                    packages.stbgrs@[m],
                    old(self).target_module_id,
                    0,
                )
            },
    {
        self.content.result = Vec::new();
        let stbgrs = packages.get_all_stbgr();
        let mut m: usize = 0;
        while m < stbgrs.len()
            invariant
                crate::builder::others_wf(stbgrs@),
                stbgrs == &packages.stbgrs,
                self.content.severity == old(self).content.severity,
                self.content.kind == old(self).content.kind,
                self.target_module_id == old(self).target_module_id,
                0 <= m <= stbgrs@.len(),
                self.content.result@.len() == m,
                forall|x: int| 0 <= x < m ==> {
                    &&& (#[trigger] self.content.result@[x]).0@
                        == stbgrs@[x].module_names@[0]@
                    &&& views_of(self.content.result@[x].1@) == det12_findings(
                        stbgrs@[x],
                        old(self).target_module_id,
                        0,
                    )
                },
            decreases stbgrs@.len() - m,
        {
            let stbgr = &stbgrs[m];
            proof {
                assert(crate::builder::gen_wf(stbgrs@[m as int]));
            }
            let mut findings: Vec<String> = Vec::new();
            let mut idx: usize = 0;
            while idx < stbgr.functions.len()
                invariant
                    0 <= idx <= stbgr.functions@.len(),
                    self.target_module_id == old(self).target_module_id,
                    views_of(findings@) + det12_findings(
                        *stbgr,
                        old(self).target_module_id,
                        idx as int,
                    ) == det12_findings(*stbgr, old(self).target_module_id, 0),
                decreases stbgr.functions@.len() - idx,
            {
                let ghost before = views_of(findings@);
                let function = &stbgr.functions[idx];
                if !function.is_native {
                    match self.detect_witness_copy(function, stbgr) {
                        Option::Some(res) => {
                            findings.push(res);
                        },
                        Option::None => {},
                    }
                }
                proof {
                    assert(views_of(findings@) + det12_findings(
                        *stbgr,
                        old(self).target_module_id,
                        idx + 1 as int,
                    ) =~= before + det12_findings(*stbgr, old(self).target_module_id, idx as int));
                }
                idx += 1;
            }
            proof {
                assert(views_of(findings@) =~= det12_findings(
                    *stbgr,
                    old(self).target_module_id,
                    0,
                ));
            }
            let key = stbgr.module_names[0].clone();
            self.content.result.push((key, findings));
            m += 1;
        }
    }
}

} // verus!



