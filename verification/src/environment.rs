//! What the library asks of the machine it runs on: where the `zig`
//! toolchain is, and where the user's home directory is. Both answers come
//! from outside and may differ from one call to the next; the library decides
//! what each answer means.

use crate::failure::{Failure, FailureValue};
use std::path::PathBuf;
use vstd::prelude::*;
use vstd::string::StringExecFns;

verus! {

/// `std::path::PathBuf`, carried through as an opaque value.
#[verifier::external_type_specification]
#[verifier::external_body]
pub struct ExPathBuf(std::path::PathBuf);

/// `which::Error`, the reason a lookup found nothing; opaque.
#[verifier::external_type_specification]
#[verifier::external_body]
pub struct ExWhichError(which::Error);

/// Calls `which::which`, which searches the directories of the process's
/// `PATH` for an executable file of the given name. The outcome depends on
/// the environment and on what is on disk, so nothing is claimed of it.
#[verifier::external_body]
fn search_path(binary_name: &str) -> Result<PathBuf, which::Error> {
    which::which(binary_name)
}

/// Calls `dirs::home_dir`, which reads the home directory of the current
/// user from the environment or the user database. The outcome depends on
/// the environment, so nothing is claimed of it.
#[verifier::external_body]
fn home_directory() -> Option<PathBuf> {
    dirs::home_dir()
}

/// Looks for `zig` on the search path and returns where it is, if
/// anywhere. A lookup that fails for any reason counts as "not found".
pub fn find_zig() -> (found: Option<PathBuf>) {
    // Every kind of failed lookup is read as absence.
    let binary = toolchain_binary();
    let outcome = search_path(binary);
    lookup_result(outcome)
}

/// The text of the warning for a missing toolchain.
pub open spec fn missing_toolchain_warning() -> Seq<char> {
    "Warning: `zig` executable not found on PATH. Generated wrappers will call zig.exe and will fail until zig is available."@
}

/// Decides the diagnostic for the outcome of a toolchain lookup: a warning
/// exactly when nothing was found. Absence is never an error.
pub fn toolchain_warning(found: &Option<PathBuf>) -> (warning: Option<String>)
    ensures
        warning is Some <==> found is None,
        warning matches Some(text) ==> text@ == missing_toolchain_warning(),
{
    match found {
        Some(_) => None,
        None => Some(
            String::from_str(
                "Warning: `zig` executable not found on PATH. Generated wrappers will call zig.exe and will fail until zig is available.",
            ),
        ),
    }
}

/// Decides what the answer about the home directory means: the directory
/// when there is one, else the failure that ends an installation.
pub fn require_home(home: Option<PathBuf>) -> (resolved: Result<PathBuf, Failure>)
    ensures
        home is Some <==> resolved is Ok,
        resolved matches Ok(dir) ==> Some(dir) == home,
        resolved matches Err(failure) ==> failure@ == FailureValue::HomeDirUnknown,
{
    match home {
        Some(dir) => Ok(dir),
        None => Err(Failure::HomeDirUnknown),
    }
}

/// The home directory of the current user, or the failure to determine
/// it.
pub fn resolve_home_dir() -> (resolved: Result<PathBuf, Failure>)
    ensures
        resolved matches Err(failure) ==> failure@ == FailureValue::HomeDirUnknown,
{
    require_home(home_directory())
}

/// The name under which the toolchain's executable is looked for.
pub fn toolchain_binary() -> (name: &'static str)
    ensures
        name@ == "zig"@,
{
    "zig"
}

/// Decides what the outcome of a search means: the path that was found,
/// when one was; absence for every error, whichever it is.
pub fn lookup_result(outcome: Result<PathBuf, which::Error>) -> (found: Option<PathBuf>)
    ensures
        outcome is Ok <==> found is Some,
        outcome matches Ok(path) ==> found == Some(path),
{
    match outcome {
        Ok(path) => Some(path),
        Err(_) => None,
    }
}

} // verus!
