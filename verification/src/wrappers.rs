//! Wrapper generator: the names and the contents of the scripts that forward
//! a build toolchain's linker and archiver invocations to `zig`.
//!
//! Nothing here touches the disk. Each function describes a file to be
//! written, as the directory it belongs to, its name inside that directory,
//! and its full text; the caller persists it.

use crate::environment::{find_zig, missing_toolchain_warning, toolchain_warning};
use crate::text::{lemma_occurs_between, occurs_in, replace_char, replaced};
use std::path::PathBuf;
use vstd::prelude::*;
use vstd::string::StringExecFns;

verus! {

/// A script to be written: where, under which name, and with what text.
#[derive(Debug, PartialEq, Eq)]
pub struct WrapperFile {
    /// Directory that receives the file.
    pub dir: String,
    /// File name inside `dir`.
    pub name: String,
    /// Full text of the file.
    pub content: String,
}

/// Mathematical value of a [`WrapperFile`].
pub ghost struct WrapperFileValue {
    pub dir: Seq<char>,
    pub name: Seq<char>,
    pub content: Seq<char>,
}

impl View for WrapperFile {
    type V = WrapperFileValue;

    open spec fn view(&self) -> WrapperFileValue {
        WrapperFileValue { dir: self.dir@, name: self.name@, content: self.content@ }
    }
}

/// The target identifier as it appears inside a file name: every colon
/// becomes a hyphen, everything else stays.
pub open spec fn sanitized(target: Seq<char>) -> Seq<char> {
    replaced(target, ':', '-')
}

/// The flag sequence that selects the target in a compiler invocation.
/// The identifier is embedded as given.
pub open spec fn target_flags(target: Seq<char>) -> Seq<char> {
    "-target "@ + target + " -static"@
}

/// Name of the batch-dialect compiler wrapper.
pub open spec fn cmd_wrapper_name(target: Seq<char>) -> Seq<char> {
    "zig-"@ + sanitized(target) + ".cmd"@
}

/// Text of the batch-dialect compiler wrapper.
pub open spec fn cmd_wrapper_content(target: Seq<char>) -> Seq<char> {
    "@echo off\r\nzig.exe cc "@ + target_flags(target) + " %*\r\n"@
}

/// Name of the batch-dialect archiver wrapper.
pub open spec fn ar_wrapper_name() -> Seq<char> {
    "zig-ar.cmd"@
}

/// Text of the batch-dialect archiver wrapper.
pub open spec fn ar_wrapper_content() -> Seq<char> {
    "@echo off\r\nzig.exe ar %*\r\n"@
}

/// Name of the PowerShell-dialect compiler wrapper.
pub open spec fn ps_wrapper_name(target: Seq<char>) -> Seq<char> {
    "zig-"@ + sanitized(target) + ".ps1"@
}

/// Text of the PowerShell-dialect compiler wrapper.
pub open spec fn ps_wrapper_content(target: Seq<char>) -> Seq<char> {
    "& \"zig.exe\" cc "@ + target_flags(target) + " $args\r\n"@
}

/// Name of the PowerShell-dialect archiver wrapper.
pub open spec fn ps_ar_wrapper_name() -> Seq<char> {
    "zig-ar.ps1"@
}

/// Text of the PowerShell-dialect archiver wrapper.
pub open spec fn ps_ar_wrapper_content() -> Seq<char> {
    "& \"zig.exe\" ar $args\r\n"@
}

/// The batch-dialect compiler wrapper for `target`, as a value.
pub open spec fn cmd_wrapper(dir: Seq<char>, target: Seq<char>) -> WrapperFileValue {
    WrapperFileValue { dir, name: cmd_wrapper_name(target), content: cmd_wrapper_content(target) }
}

/// The batch-dialect archiver wrapper, as a value.
pub open spec fn ar_wrapper(dir: Seq<char>) -> WrapperFileValue {
    WrapperFileValue { dir, name: ar_wrapper_name(), content: ar_wrapper_content() }
}

/// The PowerShell-dialect compiler wrapper for `target`, as a value.
pub open spec fn ps_wrapper(dir: Seq<char>, target: Seq<char>) -> WrapperFileValue {
    WrapperFileValue { dir, name: ps_wrapper_name(target), content: ps_wrapper_content(target) }
}

/// The PowerShell-dialect archiver wrapper, as a value.
pub open spec fn ps_ar_wrapper(dir: Seq<char>) -> WrapperFileValue {
    WrapperFileValue { dir, name: ps_ar_wrapper_name(), content: ps_ar_wrapper_content() }
}

/// `"-target " + target + " -static"`.
fn target_flags_text(target: &str) -> (flags: String)
    ensures
        flags@ == target_flags(target@),
{
    let mut flags = String::from_str("-target ");
    flags.append(target);
    flags.append(" -static");
    flags
}

/// `"zig-" + sanitized target + extension`.
fn wrapper_name(target: &str, extension: &str) -> (name: String)
    ensures
        name@ == "zig-"@ + sanitized(target@) + extension@,
{
    let clean = replace_char(target, ':', '-');
    let mut name = String::from_str("zig-");
    name.append(clean.as_str());
    name.append(extension);
    name
}

/// Describes the batch-dialect compiler wrapper for `target` in `out`.
///
/// The file name carries the target with colons replaced; the text carries
/// the target exactly as given, inside the `-target` flag.
pub fn write_cmd_wrapper(out: &str, target: &str) -> (file: WrapperFile)
    ensures
        file@ == cmd_wrapper(out@, target@),
        occurs_in(file.content@, "-target "@ + target@),
{
    let name = wrapper_name(target, ".cmd");
    let flags = target_flags_text(target);
    let mut content = String::from_str("@echo off\r\nzig.exe cc ");
    content.append(flags.as_str());
    content.append(" %*\r\n");
    proof {
        lemma_cmd_wrapper_names_target(target@);
    }
    WrapperFile { dir: String::from_str(out), name, content }
}

/// Describes the batch-dialect archiver wrapper in `out`.
pub fn write_ar_wrapper(out: &str) -> (file: WrapperFile)
    ensures
        file@ == ar_wrapper(out@),
{
    WrapperFile {
        dir: String::from_str(out),
        name: String::from_str("zig-ar.cmd"),
        content: String::from_str("@echo off\r\nzig.exe ar %*\r\n"),
    }
}

/// Describes the PowerShell-dialect compiler wrapper for `target` in `out`.
pub fn write_ps_wrapper(out: &str, target: &str) -> (file: WrapperFile)
    ensures
        file@ == ps_wrapper(out@, target@),
        occurs_in(file.content@, "-target "@ + target@),
{
    let name = wrapper_name(target, ".ps1");
    let flags = target_flags_text(target);
    let mut content = String::from_str("& \"zig.exe\" cc ");
    content.append(flags.as_str());
    content.append(" $args\r\n");
    proof {
        lemma_ps_wrapper_names_target(target@);
    }
    WrapperFile { dir: String::from_str(out), name, content }
}

/// Describes the PowerShell-dialect archiver wrapper in `out`.
pub fn write_ps_ar_wrapper(out: &str) -> (file: WrapperFile)
    ensures
        file@ == ps_ar_wrapper(out@),
{
    WrapperFile {
        dir: String::from_str(out),
        name: String::from_str("zig-ar.ps1"),
        content: String::from_str("& \"zig.exe\" ar $args\r\n"),
    }
}

/// The text of the batch-dialect compiler wrapper holds `-target` followed
/// by the target identifier, character for character.
pub proof fn lemma_cmd_wrapper_names_target(target: Seq<char>)
    ensures
        occurs_in(cmd_wrapper_content(target), "-target "@ + target),
        occurs_in(cmd_wrapper_content(target), target_flags(target)),
{
    let head = "@echo off\r\nzig.exe cc "@;
    let tail = " %*\r\n"@;
    lemma_occurs_between(head, target_flags(target), tail);
    lemma_occurs_between(head, "-target "@ + target, " -static"@ + tail);
    assert(head + ("-target "@ + target) + (" -static"@ + tail) =~= cmd_wrapper_content(target));
}

/// The text of the PowerShell-dialect compiler wrapper holds `-target`
/// followed by the target identifier, character for character.
pub proof fn lemma_ps_wrapper_names_target(target: Seq<char>)
    ensures
        occurs_in(ps_wrapper_content(target), "-target "@ + target),
        occurs_in(ps_wrapper_content(target), target_flags(target)),
{
    let head = "& \"zig.exe\" cc "@;
    let tail = " $args\r\n"@;
    lemma_occurs_between(head, target_flags(target), tail);
    lemma_occurs_between(head, "-target "@ + target, " -static"@ + tail);
    assert(head + ("-target "@ + target) + (" -static"@ + tail) =~= ps_wrapper_content(target));
}

/// Everything one generation run is to do on disk, and the diagnostic that
/// goes with it.
#[derive(Debug, PartialEq, Eq)]
pub struct WrapperPlan {
    /// Directory that receives the wrappers; it is to be created, with its
    /// parents, when missing.
    pub out_dir: String,
    /// The wrappers, in the order in which they are to be written.
    pub files: Vec<WrapperFile>,
    /// A warning to show, when the toolchain was not found. It never stops
    /// the run.
    pub warning: Option<String>,
}

/// Mathematical value of a [`WrapperPlan`].
pub ghost struct WrapperPlanValue {
    pub out_dir: Seq<char>,
    pub files: Seq<WrapperFileValue>,
    pub warning: Option<Seq<char>>,
}

impl View for WrapperPlan {
    type V = WrapperPlanValue;

    open spec fn view(&self) -> WrapperPlanValue {
        WrapperPlanValue {
            out_dir: self.out_dir@,
            files: Seq::new(self.files@.len(), |i: int| self.files@[i]@),
            warning: match self.warning {
                Some(text) => Some(text@),
                None => None,
            },
        }
    }
}

/// The directory a run writes to: the one asked for, or the current
/// directory when none was.
pub open spec fn resolved_out_dir(out: Option<&str>) -> Seq<char> {
    match out {
        Some(dir) => dir@,
        None => "."@,
    }
}

/// The wrappers of one run, in writing order: the compiler wrapper and
/// the archiver wrapper in the batch dialect, followed by the same two in
/// the PowerShell dialect when `ps` asks for them.
pub open spec fn wrapper_files(dir: Seq<char>, target: Seq<char>, ps: bool) -> Seq<
    WrapperFileValue,
> {
    if ps {
        seq![cmd_wrapper(dir, target), ar_wrapper(dir), ps_wrapper(dir, target), ps_ar_wrapper(dir)]
    } else {
        seq![cmd_wrapper(dir, target), ar_wrapper(dir)]
    }
}

/// The plan of a run into `out_dir`, given whether the toolchain was found.
pub open spec fn wrapper_plan(
    target: Seq<char>,
    out_dir: Seq<char>,
    ps: bool,
    zig_found: bool,
) -> WrapperPlanValue {
    WrapperPlanValue {
        out_dir,
        files: wrapper_files(out_dir, target, ps),
        warning: if zig_found {
            None
        } else {
            Some(missing_toolchain_warning())
        },
    }
}

/// Plans a generation run from the outcome of the toolchain lookup.
///
/// The files do not depend on that outcome: a missing toolchain only adds
/// the warning, since it may be installed later.
pub fn plan_wrappers(target: &str, out: Option<&str>, ps: bool, zig: &Option<PathBuf>) -> (plan:
    WrapperPlan)
    ensures
        plan@ == wrapper_plan(target@, resolved_out_dir(out), ps, zig is Some),
{
    let out_dir = match out {
        Some(dir) => String::from_str(dir),
        None => String::from_str("."),
    };
    let mut files: Vec<WrapperFile> = Vec::new();
    files.push(write_cmd_wrapper(out_dir.as_str(), target));
    files.push(write_ar_wrapper(out_dir.as_str()));
    if ps {
        files.push(write_ps_wrapper(out_dir.as_str(), target));
        files.push(write_ps_ar_wrapper(out_dir.as_str()));
    }
    let warning = toolchain_warning(zig);
    let plan = WrapperPlan { out_dir, files, warning };
    assert(plan@.files =~= wrapper_files(resolved_out_dir(out), target@, ps));
    plan
}

/// Generates the wrappers for `target` into `out`, or into the current
/// directory when `out` is `None`: looks for the toolchain, then plans the
/// run with [`plan_wrappers`].
///
/// Directory and files are fixed by the arguments; only the warning depends
/// on what the lookup found.
pub fn generate_wrappers(target: &str, out: Option<&str>, ps: bool) -> (plan: WrapperPlan)
    ensures
        plan@ == wrapper_plan(target@, resolved_out_dir(out), ps, true) || plan@ == wrapper_plan(
            target@,
            resolved_out_dir(out),
            ps,
            false,
        ),
        plan@.out_dir == resolved_out_dir(out),
        plan@.files == wrapper_files(resolved_out_dir(out), target@, ps),
{
    let zig = find_zig();
    plan_wrappers(target, out, ps, &zig)
}

} // verus!
