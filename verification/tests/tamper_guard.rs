use graphite_workstation_core::tamper_guard::is_debugger_present;
use graphite_workstation_core::verify_runtime_integrity;

#[test]
fn test_debugger_detection_in_test_environment() {
    assert!(!is_debugger_present());
    assert!(verify_runtime_integrity().is_ok());
}
