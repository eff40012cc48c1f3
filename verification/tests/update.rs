use jottrace::update::release_url_for_base;

#[test]
fn release_url_uses_github_latest_when_base_url_is_unset_or_empty() {
    assert_eq!(
        release_url_for_base("linux-x86_64", "latest", None),
        "https://github.com/season179/jottrace/releases/latest/download/jottrace-linux-x86_64.tar.gz"
    );
    assert_eq!(
        release_url_for_base("linux-x86_64", "latest", Some("")),
        "https://github.com/season179/jottrace/releases/latest/download/jottrace-linux-x86_64.tar.gz"
    );
}

#[test]
fn release_url_uses_base_url_when_non_empty() {
    assert_eq!(
        release_url_for_base("darwin-arm64", "v26.5.5", Some("file:///tmp/releases/")),
        "file:///tmp/releases/v26.5.5/jottrace-darwin-arm64.tar.gz"
    );
}
