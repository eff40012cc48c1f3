use jottrace::transfer::{civil_from_epoch, default_archive_name};

#[test]
fn default_archive_name_uses_utc_iso_compact() {
    // 2026-05-18T15:30:45Z = 1779118245 epoch seconds.
    assert_eq!(
        default_archive_name(1_779_118_245),
        "jottrace-pack-20260518-153045Z.tar.gz"
    );
}

#[test]
fn civil_from_epoch_handles_unix_epoch() {
    assert_eq!(civil_from_epoch(0), (1970, 1, 1, 0, 0, 0));
}

#[test]
fn civil_from_epoch_handles_leap_day() {
    // 2024-02-29T00:00:00Z = 1709164800.
    assert_eq!(civil_from_epoch(1_709_164_800), (2024, 2, 29, 0, 0, 0));
}
