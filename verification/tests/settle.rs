use jottrace::error::JottraceError;
use jottrace::journal::PathKind;
use jottrace::transfer::is_reserved_archive_top_level;
use jottrace::settle::{
    archive_is_inside, pack_archive_path, pack_output_inside_journal, pack_tar_args,
    required_index_check, settle_content_check, settle_tar_args, staged_database_check,
    staged_entry_step, staged_schema_version_check, tar_result, EntryKind, EntryStep,
    RequiredIndex,
};

#[test]
fn pack_output_placement() {
    assert_eq!(pack_archive_path(Some("out.tgz"), 0), "out.tgz");
    assert_eq!(pack_archive_path(None, 1_779_118_245), "jottrace-pack-20260518-153045Z.tar.gz");
    assert!(pack_output_inside_journal(Some("/home/u/.jottrace"), Some("/home/u/.jottrace"), Some("a.tgz")));
    assert!(!pack_output_inside_journal(Some("/home/u/.jottrace"), Some("/home/u"), Some("a.tgz")));
    assert!(!pack_output_inside_journal(None, Some("/home/u/.jottrace"), Some("a.tgz")));
    assert!(!pack_output_inside_journal(Some("/home/u/.jot"), Some("/home/u/.jottrace"), Some("x")));
    assert!(archive_is_inside("/j/sub/a.tgz", Some("/j")));
    assert!(!archive_is_inside("/jx/a.tgz", Some("/j")));
}

#[test]
fn tar_arguments() {
    assert_eq!(
        pack_tar_args("a.tgz", "/j"),
        vec![
            "-czf",
            "a.tgz",
            "--exclude=jottrace.lock",
            "--exclude=auto-update-check",
            "--exclude=auto-update-check.lock",
            "--exclude=.pending-settle",
            "-C",
            "/j",
            ".",
        ]
    );
    assert_eq!(
        settle_tar_args("a.tgz", "/j/.pending-settle"),
        vec!["-xzf", "a.tgz", "-C", "/j/.pending-settle", "--no-same-owner", "--no-same-permissions"]
    );
    assert!(tar_result(true, b"").is_ok());
    assert_eq!(
        tar_result(false, b" broken \n").unwrap_err().to_message(),
        "tar failed: broken"
    );
}

#[test]
fn settle_checks() {
    assert!(settle_content_check("/j", false, false).is_ok());
    assert!(settle_content_check("/j", true, true).is_ok());
    assert_eq!(settle_content_check("/j", true, false), Err(JottraceError::SettleNotEmpty("/j".to_string())));
    assert_eq!(staged_entry_step("/s/x", EntryKind::Directory).unwrap(), EntryStep::Descend);
    assert!(staged_entry_step("/s/x", EntryKind::Symlink).is_err());
    assert_eq!(
        staged_database_check("a.tgz", PathKind::Missing),
        Err(JottraceError::ArchiveMissingDatabase("a.tgz".to_string()))
    );
    assert_eq!(
        staged_schema_version_check("a.tgz", 0).unwrap_err().to_message(),
        "a.tgz does not contain a usable Jottrace database: db.sqlite has no Jottrace schema (user_version=0)"
    );
    assert!(staged_schema_version_check("a.tgz", 13).is_ok());
    assert!(matches!(
        staged_schema_version_check("a.tgz", 14),
        Err(JottraceError::UnsupportedSchemaVersion { actual: 14, supported: 13, .. })
    ));
    let named = RequiredIndex::Named("idx_sessions_source_session_id".to_string());
    assert!(required_index_check("a.tgz", "sessions", &named, Some(1)).is_ok());
    assert_eq!(
        required_index_check("a.tgz", "sessions", &named, None).unwrap_err().to_message(),
        "a.tgz does not contain a usable Jottrace database: missing unique index `idx_sessions_source_session_id` on `sessions`"
    );
    assert_eq!(
        required_index_check("a.tgz", "events", &RequiredIndex::PrimaryKey, Some(0)).unwrap_err().to_message(),
        "a.tgz does not contain a usable Jottrace database: PRIMARY KEY index on `events` is not unique"
    );
}

#[test]
fn pack_leaves_out_exactly_what_settle_refuses() {
    let args = pack_tar_args("out.tar.gz", "/data");
    let excluded: Vec<&str> =
        args[2..6].iter().map(|arg| arg.strip_prefix("--exclude=").expect("an exclude argument")).collect();
    for name in &excluded {
        assert!(is_reserved_archive_top_level(name));
    }
    for name in ["jottrace.lock", "auto-update-check", "auto-update-check.lock", ".pending-settle"] {
        assert!(excluded.contains(&name));
    }
    assert!(!is_reserved_archive_top_level("db.sqlite"));
}
