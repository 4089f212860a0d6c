use ray_tracing::trace::trace_budget;

#[test]
fn exhausted_depth_traces_nothing() {
    assert_eq!(trace_budget(0), None);
}

#[test]
fn each_bounce_spends_one_unit() {
    assert_eq!(trace_budget(1), Some(0));
    assert_eq!(trace_budget(20), Some(19));
}
