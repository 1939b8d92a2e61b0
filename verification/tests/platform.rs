use graphite_workstation_core::OutboxStateMachine;

#[test]
fn records_are_stamped_with_the_clock() {
    let mut sm = OutboxStateMachine::new();
    let rec = sm.create_record("clocked", "m", "h").unwrap();
    let ms: u128 = rec.created_at.parse().unwrap();
    assert!(ms > 1_577_836_800_000);
    assert_eq!(rec.created_at, rec.updated_at);
}
