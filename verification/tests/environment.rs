use std::path::PathBuf;
use yy::environment::{
    lookup_result, require_home, resolve_home_dir, toolchain_binary, toolchain_warning,
};
use yy::failure::Failure;
use yy::find_zig;

#[test]
fn missing_toolchain_warns() {
    let warning = toolchain_warning(&None).unwrap();
    assert_eq!(
        warning,
        "Warning: `zig` executable not found on PATH. Generated wrappers will call zig.exe and will fail until zig is available."
    );
}

#[test]
fn found_toolchain_is_silent() {
    assert_eq!(toolchain_warning(&Some(PathBuf::from("/usr/local/bin/zig"))), None);
}

#[test]
fn lookup_answers_and_the_warning_follows_it() {
    let found = find_zig();
    assert_eq!(toolchain_warning(&found).is_some(), found.is_none());
    if let Some(path) = found {
        assert!(path.file_name().is_some());
    }
}

#[test]
fn lookup_of_zig_is_by_that_name() {
    if let Some(path) = find_zig() {
        let stem = path.file_stem().unwrap().to_string_lossy().into_owned();
        assert_eq!(stem, "zig");
    }
}

#[test]
fn home_is_required() {
    assert_eq!(require_home(Some(PathBuf::from("/home/u"))), Ok(PathBuf::from("/home/u")));
    assert_eq!(require_home(None), Err(Failure::HomeDirUnknown));
}

#[test]
fn home_resolves_or_fails_with_the_home_failure() {
    match resolve_home_dir() {
        Ok(dir) => assert!(!dir.as_os_str().is_empty()),
        Err(failure) => assert_eq!(failure, Failure::HomeDirUnknown),
    }
}

#[test]
fn toolchain_is_looked_for_as_zig() {
    assert_eq!(toolchain_binary(), "zig");
}

#[test]
fn found_path_is_handed_on() {
    let path = PathBuf::from("/opt/zig/zig");
    assert_eq!(lookup_result(Ok(path.clone())), Some(path));
}

#[test]
fn every_lookup_error_reads_as_absence() {
    assert_eq!(lookup_result(Err(which::Error::CannotFindBinaryPath)), None);
    assert_eq!(lookup_result(Err(which::Error::CannotGetCurrentDirAndPathListEmpty)), None);
    assert_eq!(lookup_result(Err(which::Error::CannotCanonicalize)), None);
}
