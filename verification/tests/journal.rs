use jottrace::error::JottraceError;
use jottrace::journal::{
    check_mode, data_dir_from, doctor_error_limit, lock_file_owned, lock_metadata, lock_token,
    permission_bits, private_dir_step, DoctorOptions, PathKind, PrivateDirStep,
    PRIVATE_DIR_MODE, PRIVATE_FILE_MODE,
};

#[test]
fn data_dir_prefers_the_override() {
    assert_eq!(data_dir_from(Some("/sandbox"), Some("/home/u")).unwrap(), "/sandbox");
    assert_eq!(data_dir_from(None, Some("/home/u")).unwrap(), "/home/u/.jottrace");
    assert_eq!(data_dir_from(None, None), Err(JottraceError::MissingHome));
}

#[test]
fn modes_are_checked_exactly() {
    assert_eq!(PRIVATE_DIR_MODE, 0o700);
    assert_eq!(PRIVATE_FILE_MODE, 0o600);
    assert_eq!(permission_bits(0o40755), 0o755);
    assert!(check_mode("/d", 0o700, PRIVATE_DIR_MODE).is_ok());
    let err = check_mode("/d", 0o755, PRIVATE_DIR_MODE).unwrap_err();
    assert_eq!(err.to_message(), "/d has mode 755; expected 700");
    assert_eq!(private_dir_step("/d", PathKind::Missing), PrivateDirStep::Create);
    assert_eq!(
        private_dir_step("/d", PathKind::File),
        PrivateDirStep::Refuse(JottraceError::NotDirectory("/d".to_string()))
    );
}

#[test]
fn lock_file_holds_the_token() {
    let token = lock_token(42, 7);
    assert_eq!(token, "pid=42\nstarted_at_ns=7");
    let contents = lock_metadata(&token);
    assert!(lock_file_owned(&contents, &token));
    assert!(!lock_file_owned("pid=1\nstarted_at_ns=7\n", &token));
}

#[test]
fn doctor_reads_recent_errors_by_default() {
    assert!(DoctorOptions::default().include_recent_errors);
    assert_eq!(doctor_error_limit(DoctorOptions::default()), Some(5));
    assert_eq!(doctor_error_limit(DoctorOptions { include_recent_errors: false }), None);
}
