use jottrace::update::{UpdateError, UpdateResult};
use jottrace::update_steps::{
    auto_update_disabled, auto_update_next, auto_update_start, binary_version_result,
    checked_command_result, extract_failure, install_path_from, requested_version,
    unique_name, update_outcome, AutoUpdateAction, AutoUpdateGate,
};

#[test]
fn background_update_passes_every_gate_in_order() {
    let mut action = auto_update_start();
    let mut gates = Vec::new();
    while let AutoUpdateAction::Run(gate) = action {
        gates.push(gate);
        action = auto_update_next(gate, true);
    }
    assert_eq!(action, AutoUpdateAction::Started);
    assert_eq!(gates.len(), 9);
    assert_eq!(gates[0], AutoUpdateGate::EnvAllows);
    assert_eq!(gates[8], AutoUpdateGate::Spawned);
    assert_eq!(auto_update_next(AutoUpdateGate::StampDue, false), AutoUpdateAction::Stop);
    assert_eq!(auto_update_next(AutoUpdateGate::StampWritten, false), AutoUpdateAction::Fail);
}

#[test]
fn update_inputs() {
    assert!(auto_update_disabled(Some("0")));
    assert!(!auto_update_disabled(Some("1")));
    assert!(!auto_update_disabled(None));
    assert_eq!(requested_version(None), "latest");
    assert_eq!(requested_version(Some("")), "latest");
    assert_eq!(requested_version(Some("v1.2.3")), "v1.2.3");
    assert_eq!(install_path_from(Some("/o"), Err("x")).unwrap(), "/o");
    assert_eq!(install_path_from(None, Ok("/bin/j")).unwrap(), "/bin/j");
    assert_eq!(
        install_path_from(None, Err("gone")).unwrap_err(),
        UpdateError::Io { path: "current executable".to_string(), message: "gone".to_string() }
    );
    assert_eq!(unique_name("jottrace-update", 12, 34), "jottrace-update-12-34");
}

#[test]
fn command_outcomes() {
    assert!(checked_command_result("curl", true, b"").is_ok());
    let failed = checked_command_result("tar", false, b"not gzip\n").unwrap_err();
    assert_eq!(failed.message(), "tar failed: not gzip");
    assert_eq!(
        extract_failure(failed).message(),
        "invalid release artifact: artifact did not contain a runnable jottrace binary (tar failed: not gzip)"
    );
    let curl = checked_command_result("curl", false, b"").unwrap_err();
    assert_eq!(extract_failure(curl.clone()), curl);
    assert_eq!(binary_version_result("/bin/j", true, b"jottrace 1.2.3\n").unwrap(), "1.2.3");
    assert_eq!(
        binary_version_result("/bin/j", false, b"").unwrap_err().message(),
        "invalid release artifact: /bin/j did not run successfully with --version"
    );
    assert!(binary_version_result("/bin/j", true, b"other 1\n").is_err());
    assert_eq!(update_outcome("1", "1"), UpdateResult::UpToDate);
    assert_eq!(update_outcome("1", "2"), UpdateResult::Updated);
}
