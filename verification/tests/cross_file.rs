use taintlint::cross_file::{FunctionTaintSummary, ParamSinkFlow};


fn flow(idx: usize, rule: &str) -> ParamSinkFlow {
    ParamSinkFlow {
        param_index: idx,
        sink_rule_id: rule.to_string(),
        sink_description: "sink".to_string(),
    }
}

#[test]
fn merge_from_unions_new_flows_and_reports_changed() {
    let mut base = FunctionTaintSummary {
        name: "f".into(),
        params_to_return: vec![0],
        params_to_sink: vec![flow(0, "r1")],
    };
    let other = FunctionTaintSummary {
        name: "f".into(),
        params_to_return: vec![0, 1], // 1 is new
        params_to_sink: vec![flow(0, "r1"), flow(1, "r2")], // (1,r2) is new
    };
    assert!(base.merge_from(&other), "new flows should report changed");
    assert_eq!(base.params_to_return, vec![0, 1]);
    assert_eq!(base.params_to_sink.len(), 2);
    assert!(base
        .params_to_sink
        .iter()
        .any(|f| f.param_index == 1 && f.sink_rule_id == "r2"));
}

#[test]
fn merge_from_is_idempotent_when_nothing_new() {
    let mut base = FunctionTaintSummary {
        name: "f".into(),
        params_to_return: vec![0],
        params_to_sink: vec![flow(0, "r1")],
    };
    // Same (param_index, sink_rule_id) identity even if description differs.
    let dup = FunctionTaintSummary {
        name: "f".into(),
        params_to_return: vec![0],
        params_to_sink: vec![ParamSinkFlow {
            param_index: 0,
            sink_rule_id: "r1".into(),
            sink_description: "different-description".into(),
        }],
    };
    assert!(
        !base.merge_from(&dup),
        "no new flow should report unchanged"
    );
    assert_eq!(base.params_to_sink.len(), 1);
}
