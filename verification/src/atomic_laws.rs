//! Laws of the atomic file writer, stated on a model of the disk: a map
//! from path to the bytes stored there.
//!
//! The model says what each step of the protocol may make of the disk, also
//! when it fails. On it, the final path holds either what it held before the
//! write or the complete new bytes, at every point of every run.

use crate::atomic::{WriteState, WriteStep};
use crate::config::config_file;
use crate::text::ends_with;
use crate::wrappers::{ar_wrapper_name, cmd_wrapper_name, ps_ar_wrapper_name, ps_wrapper_name};
use vstd::prelude::*;

verus! {

/// A file system reduced to what matters to one atomic write: the bytes
/// stored under each path.
pub type Disk = Map<Seq<char>, Seq<u8>>;

/// `a` and `b` hold the same under `path`: both nothing, or both the same
/// bytes.
pub open spec fn same_at(a: Disk, b: Disk, path: Seq<char>) -> bool {
    &&& a.dom().contains(path) == b.dom().contains(path)
    &&& a.dom().contains(path) ==> a[path] == b[path]
}

/// `a` and `b` hold the same under every path but `path`.
pub open spec fn same_but_at(a: Disk, b: Disk, path: Seq<char>) -> bool {
    forall|other: Seq<char>| other != path ==> #[trigger] same_at(a, b, other)
}

/// What attempting `step` may make of the disk.
///
/// A step that succeeds has its full effect. A step on the temporary
/// sibling that fails may leave anything under the sibling's path and
/// nothing else changed; a rename that fails changes nothing. The rename
/// itself is one indivisible change: the final path takes over the
/// sibling's bytes.
pub open spec fn step_may_turn(
    step: WriteStep,
    succeeded: bool,
    before: Disk,
    after: Disk,
    tmp: Seq<char>,
    path: Seq<char>,
    bytes: Seq<u8>,
) -> bool {
    match step {
        WriteStep::CreateTemp => if succeeded {
            after == before.insert(tmp, Seq::empty())
        } else {
            same_but_at(before, after, tmp)
        },
        WriteStep::WriteTemp => if succeeded {
            after == before.insert(tmp, bytes)
        } else {
            same_but_at(before, after, tmp)
        },
        WriteStep::FlushTemp => if succeeded {
            after == before
        } else {
            same_but_at(before, after, tmp)
        },
        WriteStep::Rename => if succeeded {
            before.dom().contains(tmp) && after == before.remove(tmp).insert(path, before[tmp])
        } else {
            after == before
        },
    }
}

/// The state of a run whose steps so far had the given outcomes.
pub open spec fn state_after(outcomes: Seq<bool>) -> WriteState
    decreases outcomes.len(),
{
    if outcomes.len() == 0 {
        WriteState::Pending(WriteStep::CreateTemp)
    } else {
        state_after(outcomes.drop_last()).after(outcomes.last())
    }
}

/// `disks` is a history that a run with the given outcomes may leave:
/// `disks[k]` is the disk before the step number `k`, and each step turns
/// it into the next as `step_may_turn` allows. Once the run has ended, the
/// disk stays as it is.
pub open spec fn history_of(
    outcomes: Seq<bool>,
    disks: Seq<Disk>,
    tmp: Seq<char>,
    path: Seq<char>,
    bytes: Seq<u8>,
) -> bool {
    &&& disks.len() == outcomes.len() + 1
    &&& forall|k: int|
        #![trigger disks[k]]
        0 <= k < outcomes.len() ==> match state_after(outcomes.take(k)) {
            WriteState::Pending(step) => step_may_turn(
                step,
                outcomes[k],
                disks[k],
                disks[k + 1],
                tmp,
                path,
                bytes,
            ),
            _ => disks[k + 1] == disks[k],
        }
}

/// What a history guarantees of the disk it has reached, by the state of
/// the run: the final path is as it was at the start until the run is done,
/// and holds the new bytes once it is; from the flush on, the sibling holds
/// the new bytes.
spec fn reached(
    state: WriteState,
    first: Disk,
    now: Disk,
    tmp: Seq<char>,
    path: Seq<char>,
    bytes: Seq<u8>,
) -> bool {
    match state {
        WriteState::Done => now.dom().contains(path) && now[path] == bytes,
        WriteState::Pending(WriteStep::FlushTemp) | WriteState::Pending(WriteStep::Rename) => {
            &&& same_at(first, now, path)
            &&& now.dom().contains(tmp)
            &&& now[tmp] == bytes
        },
        _ => same_at(first, now, path),
    }
}

/// Every disk of a history is as `reached` says, for the state the run
/// was in when that disk was current.
proof fn lemma_history_reaches(
    outcomes: Seq<bool>,
    disks: Seq<Disk>,
    tmp: Seq<char>,
    path: Seq<char>,
    bytes: Seq<u8>,
    k: int,
)
    requires
        history_of(outcomes, disks, tmp, path, bytes),
        tmp != path,
        0 <= k <= outcomes.len(),
    ensures
        reached(state_after(outcomes.take(k)), disks[0], disks[k], tmp, path, bytes),
    decreases k,
{
    if k == 0 {
        assert(outcomes.take(0).len() == 0);
    } else {
        lemma_history_reaches(outcomes, disks, tmp, path, bytes, k - 1);
        let earlier = outcomes.take(k - 1);
        assert(outcomes.take(k).drop_last() =~= earlier);
        assert(outcomes.take(k).last() == outcomes[k - 1]);
        assert(state_after(outcomes.take(k)) == state_after(earlier).after(outcomes[k - 1]));
        let before = disks[k - 1];
        let after = disks[k];
        match state_after(earlier) {
            WriteState::Pending(step) => {
                assert(step_may_turn(step, outcomes[k - 1], before, after, tmp, path, bytes));
                if !(outcomes[k - 1] && step == WriteStep::Rename) {
                    assert(same_at(before, after, path));
                }
            },
            _ => {
                assert(after == before);
            },
        }
    }
}

/// Atomicity of the protocol, on the model above. Whatever the outcomes
/// of the steps, and wherever the run stops, the final path holds what it
/// held before the run (or still nothing) as long as the run is not
/// done, and the complete new bytes once it is. The temporary sibling must
/// be a file other than the final one.
pub proof fn lemma_final_path_old_or_new(
    outcomes: Seq<bool>,
    disks: Seq<Disk>,
    tmp: Seq<char>,
    path: Seq<char>,
    bytes: Seq<u8>,
)
    requires
        history_of(outcomes, disks, tmp, path, bytes),
        tmp != path,
    ensures
        state_after(outcomes) == WriteState::Done ==> disks.last().dom().contains(path)
            && disks.last()[path] == bytes,
        state_after(outcomes) != WriteState::Done ==> same_at(disks[0], disks.last(), path),
{
    lemma_history_reaches(outcomes, disks, tmp, path, bytes, outcomes.len() as int);
    assert(outcomes.take(outcomes.len() as int) =~= outcomes);
}

/// No file that this crate produces can be taken for a temporary sibling:
/// none of the wrapper names, for any target, and not the configuration
/// file's name ends in the sibling's extension.
pub proof fn lemma_products_are_no_siblings(target: Seq<char>)
    ensures
        !ends_with(cmd_wrapper_name(target), ".tmp"@),
        !ends_with(ps_wrapper_name(target), ".tmp"@),
        !ends_with(ar_wrapper_name(), ".tmp"@),
        !ends_with(ps_ar_wrapper_name(), ".tmp"@),
        !ends_with(config_file(), ".tmp"@),
{
    reveal_strlit(".tmp");
    reveal_strlit("zig-");
    reveal_strlit(".cmd");
    reveal_strlit(".ps1");
    reveal_strlit("zig-ar.cmd");
    reveal_strlit("zig-ar.ps1");
    reveal_strlit("config.toml");
    lemma_last_character_decides(cmd_wrapper_name(target), ".tmp"@);
    lemma_last_character_decides(ps_wrapper_name(target), ".tmp"@);
    lemma_last_character_decides(ar_wrapper_name(), ".tmp"@);
    lemma_last_character_decides(ps_ar_wrapper_name(), ".tmp"@);
    lemma_last_character_decides(config_file(), ".tmp"@);
}

/// A text that ends with a suffix ends with the suffix's last character.
proof fn lemma_last_character_decides(text: Seq<char>, suffix: Seq<char>)
    requires
        suffix.len() > 0,
        text.len() > 0,
    ensures
        ends_with(text, suffix) ==> text.last() == suffix.last(),
{
    if ends_with(text, suffix) {
        let at = text.len() - suffix.len();
        assert(text.subrange(at, at + suffix.len())[suffix.len() - 1] == text[text.len() - 1]);
    }
}

} // verus!
