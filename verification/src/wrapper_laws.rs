//! Laws of the wrapper generator: how many files a run produces, what
//! their names and texts have to do with the target, and that running again
//! changes nothing.
//!
//! The laws about files on disk are stated on a model of a directory tree:
//! a map from directory and file name to the text stored there.

use crate::text::{lemma_occurs_between, occurs_in};
use crate::wrappers::{
    ar_wrapper_name, cmd_wrapper_content, cmd_wrapper_name, ps_ar_wrapper_name,
    ps_wrapper_content, ps_wrapper_name, sanitized, wrapper_files, wrapper_plan, WrapperFileValue,
};
use vstd::prelude::*;

verus! {

/// A directory tree, reduced to the text stored under each pair of
/// directory and file name.
pub type Tree = Map<(Seq<char>, Seq<char>), Seq<char>>;

/// The tree after `files` have been written into it in order, each write
/// replacing whatever the same directory held under the same name.
pub open spec fn written(tree: Tree, files: Seq<WrapperFileValue>) -> Tree
    decreases files.len(),
{
    if files.len() == 0 {
        tree
    } else {
        written(tree, files.drop_last()).insert(
            (files.last().dir, files.last().name),
            files.last().content,
        )
    }
}

/// The text that `files` leave under `key`: that of the last file written
/// there, or `None` when no file goes there.
pub open spec fn last_written(files: Seq<WrapperFileValue>, key: (Seq<char>, Seq<char>)) -> Option<
    Seq<char>,
>
    decreases files.len(),
{
    if files.len() == 0 {
        None
    } else if (files.last().dir, files.last().name) == key {
        Some(files.last().content)
    } else {
        last_written(files.drop_last(), key)
    }
}

/// The places that writing `files` fills.
pub open spec fn produced(files: Seq<WrapperFileValue>) -> Set<(Seq<char>, Seq<char>)> {
    Set::new(|key: (Seq<char>, Seq<char>)| last_written(files, key) is Some)
}

/// What the tree holds under `key` after `files` have been written: the
/// last text written there, else what it held before.
pub proof fn lemma_written_at(tree: Tree, files: Seq<WrapperFileValue>, key: (Seq<char>, Seq<char>))
    ensures
        written(tree, files).dom().contains(key) == (last_written(files, key) is Some
            || tree.dom().contains(key)),
        written(tree, files)[key] == match last_written(files, key) {
            Some(text) => text,
            None => tree[key],
        },
    decreases files.len(),
{
    if files.len() > 0 {
        lemma_written_at(tree, files.drop_last(), key);
    }
}

/// Writing the same files again changes nothing.
pub proof fn lemma_rewrite_changes_nothing(tree: Tree, files: Seq<WrapperFileValue>)
    ensures
        written(written(tree, files), files) == written(tree, files),
{
    let once = written(tree, files);
    let twice = written(once, files);
    assert forall|key: (Seq<char>, Seq<char>)|
        #![trigger twice.dom().contains(key)]
        #![trigger once.dom().contains(key)]
        twice.dom().contains(key) == once.dom().contains(key) && (once.dom().contains(key)
            ==> twice[key] == once[key]) by {
        lemma_written_at(tree, files, key);
        lemma_written_at(once, files, key);
    }
    assert(twice =~= once);
}

/// The compiler wrappers take the archiver wrappers' names for one kind
/// of target only: one whose sanitized form is `ar`. The two dialects never
/// share a name.
pub proof fn lemma_wrapper_names_differ(target: Seq<char>)
    ensures
        cmd_wrapper_name(target) == ar_wrapper_name() <==> sanitized(target) == "ar"@,
        ps_wrapper_name(target) == ps_ar_wrapper_name() <==> sanitized(target) == "ar"@,
        cmd_wrapper_name(target) != ps_wrapper_name(target),
        cmd_wrapper_name(target) != ps_ar_wrapper_name(),
        ar_wrapper_name() != ps_wrapper_name(target),
        ar_wrapper_name() != ps_ar_wrapper_name(),
{
    reveal_strlit("zig-");
    reveal_strlit(".cmd");
    reveal_strlit(".ps1");
    reveal_strlit("zig-ar.cmd");
    reveal_strlit("zig-ar.ps1");
    reveal_strlit("ar");
    let clean = sanitized(target);
    let cmd = cmd_wrapper_name(target);
    let ps1 = ps_wrapper_name(target);
    assert(cmd.len() == clean.len() + 8 && ps1.len() == clean.len() + 8);
    assert(cmd[cmd.len() - 1] == 'd');
    assert(ps1[ps1.len() - 1] == '1');
    assert(ar_wrapper_name()[9] == 'd');
    assert(ps_ar_wrapper_name()[9] == '1');
    if cmd == ar_wrapper_name() {
        assert(clean.len() == 2);
        assert(clean[0] == cmd[4] && clean[1] == cmd[5]);
        assert(clean =~= "ar"@);
    }
    if ps1 == ps_ar_wrapper_name() {
        assert(clean.len() == 2);
        assert(clean[0] == ps1[4] && clean[1] == ps1[5]);
        assert(clean =~= "ar"@);
    }
    if clean == "ar"@ {
        assert(cmd =~= ar_wrapper_name());
        assert(ps1 =~= ps_ar_wrapper_name());
    }
}

/// A run produces exactly two files, or exactly four with the PowerShell
/// dialect, all of them in the output directory and no two under one name.
/// Everything else in the tree stays as it was.
///
/// The one exception, left out here, is a target whose sanitized form is
/// `ar`: its compiler wrapper takes the archiver wrapper's name.
pub proof fn lemma_run_produces_two_or_four_files(
    tree: Tree,
    dir: Seq<char>,
    target: Seq<char>,
    ps: bool,
)
    requires
        sanitized(target) != "ar"@,
    ensures
        ({
            let files = wrapper_files(dir, target, ps);
            let count = if ps {
                4int
            } else {
                2int
            };
            &&& files.len() == count
            &&& forall|i: int| 0 <= i < files.len() ==> (#[trigger] files[i]).dir == dir
            &&& forall|i: int, j: int|
                0 <= i < j < files.len() ==> (#[trigger] files[i]).name != (
                #[trigger] files[j]).name
            &&& produced(files).finite()
            &&& produced(files).len() == count
            &&& forall|key: (Seq<char>, Seq<char>)|
                produced(files).contains(key) ==> key.0 == dir && #[trigger] written(
                    tree,
                    files,
                ).dom().contains(key)
            &&& forall|key: (Seq<char>, Seq<char>)|
                !produced(files).contains(key) ==> (#[trigger] written(tree, files).dom().contains(
                    key,
                ) == tree.dom().contains(key)) && written(tree, files)[key] == tree[key]
        }),
{
    let files = wrapper_files(dir, target, ps);
    lemma_wrapper_names_differ(target);
    assert forall|key: (Seq<char>, Seq<char>)|
        #![trigger produced(files).contains(key)]
        #![trigger written(tree, files).dom().contains(key)]
        true implies (produced(files).contains(key) ==> written(tree, files).dom().contains(key))
        && (!produced(files).contains(key) ==> written(tree, files).dom().contains(key)
        == tree.dom().contains(key) && written(tree, files)[key] == tree[key]) by {
        lemma_written_at(tree, files, key);
    }
    let c = (dir, cmd_wrapper_name(target));
    let a = (dir, ar_wrapper_name());
    let p = (dir, ps_wrapper_name(target));
    let q = (dir, ps_ar_wrapper_name());
    reveal_with_fuel(last_written, 5);
    if ps {
        let three = files.drop_last();
        let two = three.drop_last();
        let one = two.drop_last();
        assert(one.drop_last().len() == 0);
        assert(produced(files) =~= set![c, a, p, q]);
    } else {
        let one = files.drop_last();
        assert(one.drop_last().len() == 0);
        assert(produced(files) =~= set![c, a]);
    }
}

/// File names never carry a colon, whatever the target holds: each colon of
/// the target appears as a hyphen, every other character as itself. The
/// file text carries the target unmodified.
pub proof fn lemma_names_sanitized_contents_verbatim(target: Seq<char>)
    ensures
        sanitized(target).len() == target.len(),
        forall|i: int|
            0 <= i < target.len() ==> sanitized(target)[i] == if target[i] == ':' {
                '-'
            } else {
                target[i]
            },
        !cmd_wrapper_name(target).contains(':'),
        !ps_wrapper_name(target).contains(':'),
        occurs_in(cmd_wrapper_content(target), target),
        occurs_in(ps_wrapper_content(target), target),
{
    reveal_strlit("zig-");
    reveal_strlit(".cmd");
    reveal_strlit(".ps1");
    let clean = sanitized(target);
    assert forall|k: int| 0 <= k < cmd_wrapper_name(target).len() implies cmd_wrapper_name(
        target,
    )[k] != ':' by {
        if 4 <= k < 4 + clean.len() {
            assert(cmd_wrapper_name(target)[k] == clean[k - 4]);
        }
    }
    assert forall|k: int| 0 <= k < ps_wrapper_name(target).len() implies ps_wrapper_name(
        target,
    )[k] != ':' by {
        if 4 <= k < 4 + clean.len() {
            assert(ps_wrapper_name(target)[k] == clean[k - 4]);
        }
    }
    lemma_occurs_between(
        "@echo off\r\nzig.exe cc "@ + "-target "@,
        target,
        " -static"@ + " %*\r\n"@,
    );
    assert("@echo off\r\nzig.exe cc "@ + "-target "@ + target + (" -static"@ + " %*\r\n"@)
        =~= cmd_wrapper_content(target));
    lemma_occurs_between("& \"zig.exe\" cc "@ + "-target "@, target, " -static"@ + " $args\r\n"@);
    assert("& \"zig.exe\" cc "@ + "-target "@ + target + (" -static"@ + " $args\r\n"@)
        =~= ps_wrapper_content(target));
}

/// Generation is idempotent. The files of a run are fixed by target,
/// directory and dialect choice, whatever the toolchain lookup finds; and
/// writing them a second time leaves every file as the first run left it.
pub proof fn lemma_generation_is_idempotent(
    tree: Tree,
    dir: Seq<char>,
    target: Seq<char>,
    ps: bool,
    found_first: bool,
    found_again: bool,
)
    ensures
        wrapper_plan(target, dir, ps, found_first).files == wrapper_plan(
            target,
            dir,
            ps,
            found_again,
        ).files,
        written(written(tree, wrapper_files(dir, target, ps)), wrapper_files(dir, target, ps))
            == written(tree, wrapper_files(dir, target, ps)),
{
    lemma_rewrite_changes_nothing(tree, wrapper_files(dir, target, ps));
}

} // verus!
