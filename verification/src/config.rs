//! Config installer: merges the section for one target into the text of a
//! Cargo configuration file.
//!
//! The merge is append-only. A file that already names the target's section
//! is left exactly as it is; otherwise the section is appended after a
//! separating newline and the whole text is to be written back.

use crate::text::{contains, lemma_occurs_between, occurs_in};
use vstd::prelude::*;
use vstd::string::StringExecFns;

verus! {

/// The literal that identifies the section of `target`: its bracketed
/// header.
pub open spec fn section_marker(target: Seq<char>) -> Seq<char> {
    "[target."@ + target + "]"@
}

/// The directive that turns on static linking of the C runtime.
pub open spec fn static_flags_directive() -> Seq<char> {
    "rustflags = [\"-C\", \"target-feature=+crt-static\"]\n"@
}

/// The section without the optional directive: header, linker line and
/// archiver line.
pub open spec fn base_section(target: Seq<char>) -> Seq<char> {
    section_marker(target) + "\nlinker = \"zig-"@ + target + "\"\nar = \"zig-ar\"\n"@
}

/// The section for `target`, with the static-linking directive as its last
/// line exactly when `set_rustflags` holds.
pub open spec fn section_block(target: Seq<char>, set_rustflags: bool) -> Seq<char> {
    if set_rustflags {
        base_section(target) + static_flags_directive()
    } else {
        base_section(target)
    }
}

/// `existing` followed by a newline and the section for `target`.
pub open spec fn with_section(existing: Seq<char>, target: Seq<char>, set_rustflags: bool) -> Seq<
    char,
> {
    existing + "\n"@ + section_block(target, set_rustflags)
}

/// The text of a configuration file as the installer found it; `None`
/// stands for a file that does not exist.
pub open spec fn text_of(existing: Option<&str>) -> Option<Seq<char>> {
    match existing {
        Some(text) => Some(text@),
        None => None,
    }
}

/// What an installation does to the configuration file.
#[derive(Debug, PartialEq, Eq)]
pub enum ConfigUpdate {
    /// The file already names the target's section and is not touched.
    Unchanged,
    /// The file is to be replaced, as a whole, by this text.
    Write(String),
}

/// Mathematical value of a [`ConfigUpdate`].
pub ghost enum ConfigUpdateValue {
    Unchanged,
    Write(Seq<char>),
}

impl View for ConfigUpdate {
    type V = ConfigUpdateValue;

    open spec fn view(&self) -> ConfigUpdateValue {
        match self {
            ConfigUpdate::Unchanged => ConfigUpdateValue::Unchanged,
            ConfigUpdate::Write(text) => ConfigUpdateValue::Write(text@),
        }
    }
}

/// The installer's decision: nothing when the file exists and the marker
/// already occurs in its text, else its text (empty for a missing file) with
/// the section appended.
pub open spec fn config_update(
    target: Seq<char>,
    set_rustflags: bool,
    existing: Option<Seq<char>>,
) -> ConfigUpdateValue {
    match existing {
        Some(text) => if occurs_in(text, section_marker(target)) {
            ConfigUpdateValue::Unchanged
        } else {
            ConfigUpdateValue::Write(with_section(text, target, set_rustflags))
        },
        None => ConfigUpdateValue::Write(with_section(Seq::empty(), target, set_rustflags)),
    }
}

/// What the file holds once `update` has been carried out on a file that
/// held `before` (`None`: no file).
pub open spec fn config_after(before: Option<Seq<char>>, update: ConfigUpdateValue) -> Option<
    Seq<char>,
> {
    match update {
        ConfigUpdateValue::Unchanged => before,
        ConfigUpdateValue::Write(text) => Some(text),
    }
}

/// Name of the per-user configuration directory.
pub open spec fn config_dir() -> Seq<char> {
    ".cargo"@
}

/// Name of the configuration file.
pub open spec fn config_file() -> Seq<char> {
    "config.toml"@
}

/// Name of the per-user configuration directory, below the home directory.
pub fn config_dir_name() -> (name: &'static str)
    ensures
        name@ == config_dir(),
{
    ".cargo"
}

/// Name of the configuration file inside the configuration directory.
pub fn config_file_name() -> (name: &'static str)
    ensures
        name@ == config_file(),
{
    "config.toml"
}

/// `"[target." + target + "]"`.
fn section_marker_text(target: &str) -> (marker: String)
    ensures
        marker@ == section_marker(target@),
{
    let mut marker = String::from_str("[target.");
    marker.append(target);
    marker.append("]");
    marker
}

/// The section for `target` as text.
fn section_block_text(target: &str, set_rustflags: bool) -> (block: String)
    ensures
        block@ == section_block(target@, set_rustflags),
{
    let mut block = section_marker_text(target);
    block.append("\nlinker = \"zig-");
    block.append(target);
    block.append("\"\nar = \"zig-ar\"\n");
    if set_rustflags {
        block.append("rustflags = [\"-C\", \"target-feature=+crt-static\"]\n");
    }
    block
}

/// Decides how to install the section for `target` into a configuration
/// file whose current text is `existing` (`None` when the file is absent).
///
/// The test for an existing section is a literal substring match on the
/// section marker, not a parse: existing text is never edited, the only
/// guard is against appending a second section for the same target.
pub fn install_cargo_config(target: &str, set_rustflags: bool, existing: Option<&str>) -> (update:
    ConfigUpdate)
    ensures
        update@ == config_update(target@, set_rustflags, text_of(existing)),
{
    let marker = section_marker_text(target);
    let mut contents = String::new();
    if let Some(text) = existing {
        if contains(text, marker.as_str()) {
            return ConfigUpdate::Unchanged;
        }
        contents.append(text);
    }
    let block = section_block_text(target, set_rustflags);
    contents.append("\n");
    contents.append(block.as_str());
    assert(contents@ =~= with_section(
        match existing {
            Some(text) => text@,
            None => Seq::empty(),
        },
        target@,
        set_rustflags,
    ));
    ConfigUpdate::Write(contents)
}

/// Installing is idempotent: whatever the file held, once a section for
/// `target` has been installed, installing for the same target again is a
/// no-op that leaves the file as it is, with either setting of the switch.
pub proof fn lemma_second_install_is_noop(
    target: Seq<char>,
    first_rustflags: bool,
    second_rustflags: bool,
    existing: Option<Seq<char>>,
)
    ensures
        ({
            let installed = config_after(
                existing,
                config_update(target, first_rustflags, existing),
            );
            &&& installed is Some
            &&& occurs_in(installed->0, section_marker(target))
            &&& config_update(target, second_rustflags, installed) == ConfigUpdateValue::Unchanged
            &&& config_after(installed, config_update(target, second_rustflags, installed))
                == installed
        }),
{
    let before = match existing {
        Some(text) => text,
        None => Seq::empty(),
    };
    let tail = "\nlinker = \"zig-"@ + target + "\"\nar = \"zig-ar\"\n"@ + if first_rustflags {
        static_flags_directive()
    } else {
        Seq::empty()
    };
    lemma_occurs_between(before + "\n"@, section_marker(target), tail);
    assert(before + "\n"@ + section_marker(target) + tail =~= with_section(
        before,
        target,
        first_rustflags,
    ));
}

} // verus!
