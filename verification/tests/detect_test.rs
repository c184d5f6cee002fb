use move_dep_bounds::builder::StacklessBytecodeGenerator;
use move_dep_bounds::detectors::{
    DetectKind, Detector10, Detector11, Detector12, Detector9, Packages, Severity,
};
use move_dep_bounds::model::{
    AssignKind, FunctionInfo, Instr, Op, StructInfo, VarType, Visibility, Width,
};

fn func(
    name: &str,
    visibility: Visibility,
    param_count: usize,
    local_types: Vec<VarType>,
    local_names: Vec<&str>,
    code: Vec<Instr>,
) -> FunctionInfo {
    FunctionInfo {
        name: name.to_string(),
        visibility,
        is_native: false,
        param_count,
        local_types,
        local_names: local_names.into_iter().map(|s| s.to_string()).collect(),
        code,
    }
}

fn gen(
    name: &str,
    functions: Vec<FunctionInfo>,
    symbols: Vec<&str>,
    structs: Vec<StructInfo>,
) -> StacklessBytecodeGenerator {
    let n = functions.len();
    let mut g = StacklessBytecodeGenerator {
        module_names: vec![name.to_string()],
        functions,
        function_idx_to_id: (0..n).collect(),
        symbols: symbols.into_iter().map(|s| s.to_string()).collect(),
        structs,
        data_dependency: Vec::new(),
    };
    g.get_data_dependency(&Vec::new());
    g
}

fn call_fn(fid: usize) -> Instr {
    Instr::Call(vec![], Op::Function(0, fid), vec![])
}

fn u64t() -> VarType {
    VarType::Uint(Width::W64)
}

fn signer_ref() -> VarType {
    VarType::Ref(false, Box::new(VarType::Signer))
}

#[test]
fn zero_check_reports_unchecked_liquidity_operation() {
    let f = func(
        "swap",
        Visibility::Public,
        0,
        vec![],
        vec![],
        vec![call_fn(0)],
    );
    let g = gen("m", vec![f], vec!["add_liquidity"], vec![]);
    let det = Detector9::new();
    let r = det.detect_missing_zero_check(&g.functions[0], &g);
    assert_eq!(
        r.unwrap(),
        "swap: Missing 'liquidity > 0' check for liquidity"
    );
}

#[test]
fn zero_check_skips_when_internal_helper_is_called() {
    let f = func(
        "swap",
        Visibility::Public,
        0,
        vec![],
        vec![],
        vec![call_fn(0), call_fn(1)],
    );
    let g = gen(
        "m",
        vec![f],
        vec!["add_liquidity", "intra_add_liquidity"],
        vec![],
    );
    let det = Detector9::new();
    assert!(det.detect_missing_zero_check(&g.functions[0], &g).is_none());
}

#[test]
fn zero_check_accepts_branch_on_tracked_liquidity_variable() {
    // the variable named "liquidity_amt" is assigned, then branched on
    let f = func(
        "swap",
        Visibility::Public,
        0,
        vec![u64t(), u64t()],
        vec!["x", "liquidity_amt"],
        vec![
            call_fn(0),
            Instr::Load(0, move_dep_bounds::model::ConstVal::Uint(Width::W64, ethnum::U256([1, 0]))),
            Instr::Assign(1, 0, AssignKind::CopyVal),
            Instr::Branch(1),
        ],
    );
    let g = gen("m", vec![f], vec!["add_liquidity"], vec![]);
    let det = Detector9::new();
    assert!(det.detect_missing_zero_check(&g.functions[0], &g).is_none());
}

#[test]
fn zero_check_run_collects_per_module_findings() {
    let f = func(
        "swap",
        Visibility::Public,
        0,
        vec![],
        vec![],
        vec![call_fn(0)],
    );
    let g = gen("pool", vec![f], vec!["add_liquidity"], vec![]);
    let packages = Packages { stbgrs: vec![g] };
    let mut det = Detector9::new();
    det.run(&packages);
    assert_eq!(det.content.severity, Severity::Minor);
    assert_eq!(det.content.kind, DetectKind::UncheckedZero);
    assert_eq!(det.content.result.len(), 1);
    assert_eq!(det.content.result[0].0, "pool");
    assert_eq!(
        det.content.result[0].1,
        vec!["swap: Missing 'liquidity > 0' check for liquidity"]
    );
}

#[test]
fn emit_without_state_update_is_reported_when_called_by_others() {
    // "notify" is public, emits an event, updates no state, and "main_entry"
    // calls it
    let notify = func(
        "notify",
        Visibility::Public,
        0,
        vec![],
        vec![],
        vec![call_fn(0)],
    );
    let main_entry = func(
        "main_entry",
        Visibility::Private,
        0,
        vec![],
        vec![],
        vec![call_fn(1)],
    );
    let g = gen(
        "m",
        vec![notify, main_entry],
        vec!["emit_event_helper", "notify"],
        vec![],
    );
    let det = Detector10::new();
    let r = det.detect_event_emit_without_friend(&g.functions[0], &Visibility::Public, &g);
    assert_eq!(r.unwrap(), "notify");
}

#[test]
fn emit_with_state_update_is_not_reported() {
    let notify = func(
        "notify",
        Visibility::Public,
        0,
        vec![],
        vec![],
        vec![call_fn(0), call_fn(2)],
    );
    let main_entry = func(
        "main_entry",
        Visibility::Private,
        0,
        vec![],
        vec![],
        vec![call_fn(1)],
    );
    let g = gen(
        "m",
        vec![notify, main_entry],
        vec!["emit_event_helper", "notify", "withdraw_funds"],
        vec![],
    );
    let det = Detector10::new();
    assert!(det
        .detect_event_emit_without_friend(&g.functions[0], &Visibility::Public, &g)
        .is_none());
}

#[test]
fn emit_not_called_by_others_is_not_reported() {
    let notify = func(
        "notify",
        Visibility::Public,
        0,
        vec![],
        vec![],
        vec![call_fn(0)],
    );
    let g = gen("m", vec![notify], vec!["emit_event_helper"], vec![]);
    let det = Detector10::new();
    assert!(det
        .detect_event_emit_without_friend(&g.functions[0], &Visibility::Public, &g)
        .is_none());
}

#[test]
fn private_emitter_is_not_reported() {
    let notify = func(
        "notify",
        Visibility::Private,
        0,
        vec![],
        vec![],
        vec![call_fn(0)],
    );
    let main_entry = func(
        "main_entry",
        Visibility::Private,
        0,
        vec![],
        vec![],
        vec![call_fn(1)],
    );
    let g = gen(
        "m",
        vec![notify, main_entry],
        vec!["emit_event_helper", "notify"],
        vec![],
    );
    let det = Detector10::new();
    assert!(det
        .detect_event_emit_without_friend(&g.functions[0], &Visibility::Private, &g)
        .is_none());
}

#[test]
fn fund_transfer_without_access_control_is_reported() {
    // a signer parameter, a resource move, and neither an assertion nor an
    // access-control call
    let f = func(
        "withdraw_all",
        Visibility::Public,
        1,
        vec![signer_ref()],
        vec!["account"],
        vec![Instr::Call(vec![], Op::MoveTo, vec![0, 0])],
    );
    let g = gen("m", vec![f], vec![], vec![]);
    let det = Detector11::new();
    let r = det.detect_missing_access_control_assertion(&g.functions[0], 0, &g);
    assert_eq!(r.unwrap(), "withdraw_all");
}

#[test]
fn fund_transfer_with_assertion_is_not_reported() {
    // the abort condition names a tracked slot, which counts as an assertion
    let f = func(
        "withdraw_all",
        Visibility::Public,
        1,
        vec![signer_ref()],
        vec!["account"],
        vec![
            Instr::Call(vec![], Op::MoveTo, vec![0, 0]),
            Instr::Abort(0),
        ],
    );
    let g = gen("m", vec![f], vec![], vec![]);
    let det = Detector11::new();
    assert!(det
        .detect_missing_access_control_assertion(&g.functions[0], 0, &g)
        .is_none());
}

#[test]
fn fund_transfer_with_access_control_call_is_not_reported() {
    let f = func(
        "withdraw_all",
        Visibility::Public,
        1,
        vec![signer_ref()],
        vec!["account"],
        vec![
            Instr::Call(vec![], Op::MoveTo, vec![0, 0]),
            call_fn(0),
        ],
    );
    let g = gen("m", vec![f], vec!["assert_admin"], vec![]);
    let det = Detector11::new();
    assert!(det
        .detect_missing_access_control_assertion(&g.functions[0], 0, &g)
        .is_none());
}

#[test]
fn no_signer_parameter_means_no_access_control_finding() {
    let f = func(
        "transfer_all",
        Visibility::Public,
        0,
        vec![u64t()],
        vec!["x"],
        vec![Instr::Call(vec![], Op::MoveTo, vec![0, 0])],
    );
    let g = gen("m", vec![f], vec![], vec![]);
    let det = Detector11::new();
    assert!(det
        .detect_missing_access_control_assertion(&g.functions[0], 0, &g)
        .is_none());
}

#[test]
fn copyable_witness_pack_is_reported() {
    let f = func(
        "init",
        Visibility::Public,
        0,
        vec![VarType::Other],
        vec!["w"],
        vec![Instr::Call(vec![0], Op::Pack(0, 0), vec![])],
    );
    let g = gen(
        "m",
        vec![f],
        vec![],
        vec![StructInfo { name: "Witness".to_string(), has_copy: true }],
    );
    let det = Detector12::new();
    let r = det.detect_witness_copy(&g.functions[0], &g);
    assert_eq!(r.unwrap(), "init");
}

#[test]
fn witness_without_copy_ability_is_not_reported() {
    let f = func(
        "init",
        Visibility::Public,
        0,
        vec![VarType::Other],
        vec!["w"],
        vec![Instr::Call(vec![0], Op::Pack(0, 0), vec![])],
    );
    let g = gen(
        "m",
        vec![f],
        vec![],
        vec![StructInfo { name: "Witness".to_string(), has_copy: false }],
    );
    let det = Detector12::new();
    assert!(det.detect_witness_copy(&g.functions[0], &g).is_none());
}

#[test]
fn differently_named_struct_is_not_a_witness() {
    let f = func(
        "init",
        Visibility::Public,
        0,
        vec![VarType::Other],
        vec!["w"],
        vec![Instr::Call(vec![0], Op::Pack(0, 0), vec![])],
    );
    let g = gen(
        "m",
        vec![f],
        vec![],
        vec![StructInfo { name: "Token".to_string(), has_copy: true }],
    );
    let det = Detector12::new();
    assert!(det.detect_witness_copy(&g.functions[0], &g).is_none());
}

#[test]
fn witness_run_reports_per_module() {
    let f = func(
        "init",
        Visibility::Public,
        0,
        vec![VarType::Other],
        vec!["w"],
        vec![Instr::Call(vec![0], Op::Pack(0, 0), vec![])],
    );
    let g = gen(
        "tokens",
        vec![f],
        vec![],
        vec![StructInfo { name: "Witness".to_string(), has_copy: true }],
    );
    let packages = Packages { stbgrs: vec![g] };
    let mut det = Detector12::new();
    det.run(&packages);
    assert_eq!(det.content.result.len(), 1);
    assert_eq!(det.content.result[0].0, "tokens");
    assert_eq!(det.content.result[0].1, vec!["init"]);
}

#[test]
fn emit_run_reports_per_module() {
    let notify = func(
        "notify",
        Visibility::Public,
        0,
        vec![],
        vec![],
        vec![call_fn(0)],
    );
    let main_entry = func(
        "main_entry",
        Visibility::Private,
        0,
        vec![],
        vec![],
        vec![call_fn(1)],
    );
    let g = gen(
        "events",
        vec![notify, main_entry],
        vec!["emit_event_helper", "notify"],
        vec![],
    );
    let packages = Packages { stbgrs: vec![g] };
    let mut det = Detector10::new();
    det.run(&packages);
    assert_eq!(det.content.kind, DetectKind::UnnecessaryEmit);
    assert_eq!(det.content.result.len(), 1);
    assert_eq!(det.content.result[0].0, "events");
    assert_eq!(det.content.result[0].1, vec!["notify"]);
}

#[test]
fn access_control_run_reports_per_module() {
    let f = func(
        "withdraw_all",
        Visibility::Public,
        1,
        vec![signer_ref()],
        vec!["account"],
        vec![Instr::Call(vec![], Op::MoveTo, vec![0, 0])],
    );
    let g = gen("vault", vec![f], vec![], vec![]);
    let packages = Packages { stbgrs: vec![g] };
    let mut det = Detector11::new();
    det.run(&packages);
    assert_eq!(det.content.kind, DetectKind::UnnecessaryAccessControl);
    assert_eq!(det.content.result.len(), 1);
    assert_eq!(det.content.result[0].0, "vault");
    assert_eq!(det.content.result[0].1, vec!["withdraw_all"]);
}
