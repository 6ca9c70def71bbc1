use texe::error::TexeError;
use texe::lockfile::{generated_with, restore_package_lock, validate_package_lock, LockSummary, Restore, LOCK_SCHEMA};

fn summary(schema: &str, toolchain_matches: bool, packages: Option<&str>) -> Option<LockSummary> {
    Some(LockSummary {
        schema: schema.to_string(),
        toolchain_matches,
        packages_schema: packages.map(str::to_string),
    })
}

fn build_message(result: Result<Restore, TexeError>) -> String {
    match result {
        Err(TexeError::Build(message)) => message,
        other => panic!("unexpected {other:?}"),
    }
}

#[test]
fn composite_lock_restores_the_internal_package_lock() {
    let lock = summary(LOCK_SCHEMA, true, Some("pqty.lock/v1"));
    assert_eq!(restore_package_lock("/p/texe.lock", &lock, true).expect("restores"), Restore::WritePackageLock);
    assert_eq!(restore_package_lock("/p/texe.lock", &lock, false).expect("restores"), Restore::WritePackageLock);
}

#[test]
fn a_missing_lock_is_required_only_when_frozen() {
    assert_eq!(restore_package_lock("/p/texe.lock", &None, false).expect("nothing"), Restore::Nothing);
    assert_eq!(
        build_message(restore_package_lock("/p/texe.lock", &None, true)),
        "--frozen requires an existing /p/texe.lock"
    );
}

#[test]
fn another_toolchain_drops_the_package_lock_unless_frozen() {
    let lock = summary(LOCK_SCHEMA, false, Some("pqty.lock/v1"));
    assert_eq!(restore_package_lock("/p/texe.lock", &lock, false).expect("drop"), Restore::RemovePackageLock);
    assert!(build_message(restore_package_lock("/p/texe.lock", &lock, true)).contains("does not match the resolved toolchain"));
}

#[test]
fn malformed_locks_are_rejected() {
    assert_eq!(
        build_message(restore_package_lock("/p/texe.lock", &summary("texe.lock/v0", true, Some("pqty.lock/v1")), false)),
        "unsupported lock schema texe.lock/v0; expected texe.lock/v1"
    );
    assert_eq!(
        build_message(restore_package_lock("/p/texe.lock", &summary(LOCK_SCHEMA, true, None), false)),
        "texe.lock packages must contain a pqty.lock/v1 object"
    );
    assert!(validate_package_lock(&Some("pqty.lock/v2".to_string())).is_err());
    assert!(validate_package_lock(&Some("pqty.lock/v1".to_string())).is_ok());
    assert_eq!(generated_with("0.1.0"), "texe/0.1.0");
}
