//! A freshly installed configuration file holds the section marker of its
//! target exactly once, at the header of the section, whatever characters the
//! target identifier is made of.
//!
//! The marker opens with `[target.`, so a second occurrence would have to
//! start inside one of the two places where the file repeats the target. Such
//! an occurrence forces the target to repeat itself at a fixed distance, and
//! following the opening bracket along that repetition leads outside the
//! target: the occurrence cannot exist.

use crate::config::{
    config_after, config_update, lemma_second_install_is_noop, section_marker, with_section,
    ConfigUpdateValue,
};
use crate::text::{lemma_occurrence_holds, occurs_at, occurs_in};
use vstd::prelude::*;

verus! {

/// The text of a configuration file that held nothing before the section
/// for `target` was installed.
pub open spec fn fresh_config(target: Seq<char>, set_rustflags: bool) -> Seq<char> {
    with_section(Seq::empty(), target, set_rustflags)
}

/// `t` holds an opening bracket at `j`.
spec fn bracket_at(t: Seq<char>, j: int) -> bool {
    0 <= j < t.len() && t[j] == '['
}

/// `t` holds `[t` at `j`.
spec fn header_start_at(t: Seq<char>, j: int) -> bool {
    0 <= j && j + 1 < t.len() && t[j] == '[' && t[j + 1] == 't'
}

/// Every opening bracket of `t` has another one `d` places further on,
/// counted round a cycle of `t.len() + 16` places of which `t` fills the first
/// `t.len()`.
spec fn brackets_recur_cyclically(t: Seq<char>, d: int) -> bool {
    forall|j: int| #[trigger]
        bracket_at(t, j) ==> (j + d < t.len() && t[j + d] == '[') || (j + d >= t.len() + 16 && t[j
            + d - t.len() - 16] == '[')
}

/// Every `[t` of `t` has another one `d` places further on, inside `t`.
spec fn header_starts_recur(t: Seq<char>, d: int) -> bool {
    forall|j: int| #[trigger]
        header_start_at(t, j) ==> j + d + 1 < t.len() && t[j + d] == '[' && t[j + d + 1] == 't'
}

/// The characters of a fresh configuration file, place by place.
proof fn lemma_fresh_config_layout(target: Seq<char>, set_rustflags: bool)
    ensures
        ({
            let c = fresh_config(target, set_rustflags);
            let n = target.len() as int;
            &&& c.len() == 41 + 2 * n + if set_rustflags {
                49int
            } else {
                0int
            }
            &&& c[0] == '\n'
            &&& forall|i: int| 1 <= i < 9 ==> #[trigger] c[i] == "[target."@[i - 1]
            &&& forall|i: int| 9 <= i < 9 + n ==> #[trigger] c[i] == target[i - 9]
            &&& c[9 + n] == ']'
            &&& forall|i: int|
                10 + n <= i < 25 + n ==> #[trigger] c[i] == "\nlinker = \"zig-"@[i - 10 - n]
            &&& forall|i: int| 25 + n <= i < 25 + 2 * n ==> #[trigger] c[i] == target[i - 25 - n]
            &&& forall|i: int|
                25 + 2 * n <= i < 41 + 2 * n ==> #[trigger] c[i] == "\"\nar = \"zig-ar\"\n"@[i - 25
                    - 2 * n]
            &&& set_rustflags ==> forall|i: int|
                41 + 2 * n <= i < 90 + 2 * n ==> #[trigger] c[i]
                    == "rustflags = [\"-C\", \"target-feature=+crt-static\"]\n"@[i - 41 - 2 * n]
        }),
{
    reveal_strlit("[target.");
    reveal_strlit("]");
    reveal_strlit("\n");
    reveal_strlit("\nlinker = \"zig-");
    reveal_strlit("\"\nar = \"zig-ar\"\n");
    reveal_strlit("rustflags = [\"-C\", \"target-feature=+crt-static\"]\n");
}

/// The marker of `target`, place by place.
proof fn lemma_marker_layout(target: Seq<char>)
    ensures
        ({
            let m = section_marker(target);
            let n = target.len() as int;
            &&& m.len() == n + 9
            &&& forall|i: int| 0 <= i < 8 ==> #[trigger] m[i] == "[target."@[i]
            &&& forall|i: int| 8 <= i < 8 + n ==> #[trigger] m[i] == target[i - 8]
            &&& m[n + 8] == ']'
        }),
{
    reveal_strlit("[target.");
    reveal_strlit("]");
}

/// The character of a fresh configuration file at one place.
proof fn lemma_fresh_config_at(target: Seq<char>, set_rustflags: bool, i: int)
    ensures
        ({
            let c = fresh_config(target, set_rustflags);
            let n = target.len() as int;
            &&& c.len() == 41 + 2 * n + if set_rustflags {
                49int
            } else {
                0int
            }
            &&& i == 0 ==> c[i] == '\n'
            &&& 1 <= i < 9 ==> c[i] == "[target."@[i - 1]
            &&& 9 <= i < 9 + n ==> c[i] == target[i - 9]
            &&& i == 9 + n ==> c[i] == ']'
            &&& 10 + n <= i < 25 + n ==> c[i] == "\nlinker = \"zig-"@[i - 10 - n]
            &&& 25 + n <= i < 25 + 2 * n ==> c[i] == target[i - 25 - n]
            &&& 25 + 2 * n <= i < 41 + 2 * n ==> c[i] == "\"\nar = \"zig-ar\"\n"@[i - 25 - 2 * n]
            &&& set_rustflags && 41 + 2 * n <= i < 90 + 2 * n ==> c[i]
                == "rustflags = [\"-C\", \"target-feature=+crt-static\"]\n"@[i - 41 - 2 * n]
        }),
{
    lemma_fresh_config_layout(target, set_rustflags);
}

/// The character of the marker at one place.
proof fn lemma_marker_at(target: Seq<char>, i: int)
    ensures
        ({
            let m = section_marker(target);
            let n = target.len() as int;
            &&& m.len() == n + 9
            &&& 0 <= i < 8 ==> m[i] == "[target."@[i]
            &&& 8 <= i < 8 + n ==> m[i] == target[i - 8]
            &&& i == n + 8 ==> m[i] == ']'
        }),
{
    lemma_marker_layout(target);
}

/// The opening of the marker: a bracket, then `t`, and no further bracket
/// or quotation mark.
proof fn lemma_opening_literal(k: int)
    requires
        0 <= k < 8,
    ensures
        "[target."@.len() == 8,
        ("[target."@[k] == '[') == (k == 0),
        k == 1 ==> "[target."@[k] == 't',
        "[target."@[k] != ']',
        "[target."@[k] != '"',
{
    reveal_strlit("[target.");
}

/// The linker line up to the target holds no bracket.
proof fn lemma_linker_literal(k: int)
    requires
        0 <= k < 15,
    ensures
        "\nlinker = \"zig-"@[k] != '[',
        "\nlinker = \"zig-"@[k] != ']',
{
    reveal_strlit("\nlinker = \"zig-");
}

/// The archiver line opens with a quotation mark and holds no opening
/// bracket.
proof fn lemma_tail_literal(k: int)
    requires
        0 <= k < 16,
    ensures
        "\"\nar = \"zig-ar\"\n"@[k] != '[',
        k == 0 ==> "\"\nar = \"zig-ar\"\n"@[k] == '"',
{
    reveal_strlit("\"\nar = \"zig-ar\"\n");
}

/// The static-linking directive holds one opening bracket, at place 12,
/// with a quotation mark behind it.
proof fn lemma_flags_literal(k: int)
    requires
        0 <= k < 49,
    ensures
        "rustflags = [\"-C\", \"target-feature=+crt-static\"]\n"@[k] == '[' ==> k == 12,
        k == 13 ==> "rustflags = [\"-C\", \"target-feature=+crt-static\"]\n"@[k] == '"',
{
    reveal_strlit("rustflags = [\"-C\", \"target-feature=+crt-static\"]\n");
}

/// Following an opening bracket `k` times along a cyclic recurrence of
/// distance `d` stays inside `t`: the place reached is `start + k * d`, less
/// some whole number `turns` of cycles.
proof fn lemma_follow_bracket(t: Seq<char>, d: int, start: int, k: nat) -> (r: (int, int))
    requires
        0 <= d <= t.len(),
        brackets_recur_cyclically(t, d),
        bracket_at(t, start),
    ensures
        bracket_at(t, r.0),
        r.0 == start + k * d - r.1 * (t.len() + 16),
    decreases k,
{
    if k == 0 {
        (start, 0)
    } else {
        let (x, turns) = lemma_follow_bracket(t, d, start, (k - 1) as nat);
        let cycle = t.len() + 16;
        assert(bracket_at(t, x));
        assert((k - 1) * d + d == k * d) by (nonlinear_arith);
        assert(turns * cycle + cycle == (turns + 1) * cycle) by (nonlinear_arith);
        if x + d < t.len() {
            (x + d, turns)
        } else {
            (x + d - cycle, turns + 1)
        }
    }
}

/// A text in which every `[t` recurs at a positive distance holds no `[t`:
/// the recurrence would have to go on without end.
proof fn lemma_header_start_cannot_recur(t: Seq<char>, d: int, j: int)
    requires
        d > 0,
        header_starts_recur(t, d),
    ensures
        !header_start_at(t, j),
    decreases t.len() - j,
{
    if header_start_at(t, j) {
        assert(header_start_at(t, j + d));
        lemma_header_start_cannot_recur(t, d, j + d);
    }
}

/// An occurrence of the marker inside the first copy of the target makes
/// every opening bracket of the target recur, round a cycle, at the distance
/// between the occurrence and the header.
proof fn lemma_inner_occurrence_recurs(target: Seq<char>, set_rustflags: bool, at: int)
    requires
        occurs_at(fresh_config(target, set_rustflags), section_marker(target), at),
        9 <= at <= target.len() + 1,
    ensures
        at - 1 >= 16,
        bracket_at(target, at - 9),
        brackets_recur_cyclically(target, at - 1),
{
    let c = fresh_config(target, set_rustflags);
    let m = section_marker(target);
    let n = target.len() as int;
    let d = at - 1;
    // The closing bracket of the occurrence falls behind the linker line.
    lemma_marker_at(target, n + 8);
    lemma_occurrence_holds(c, m, at, n + 8);
    lemma_fresh_config_at(target, set_rustflags, at + n + 8);
    if d < 16 {
        lemma_linker_literal(d - 1);
    }
    // The occurrence opens with a bracket.
    lemma_marker_at(target, 0);
    lemma_opening_literal(0);
    lemma_occurrence_holds(c, m, at, 0);
    lemma_fresh_config_at(target, set_rustflags, at);
    assert forall|j: int| #[trigger] bracket_at(target, j) implies (j + d < n && target[j + d]
        == '[') || (j + d >= n + 16 && target[j + d - n - 16] == '[') by {
        lemma_marker_at(target, 8 + j);
        lemma_occurrence_holds(c, m, at, 8 + j);
        lemma_fresh_config_at(target, set_rustflags, at + 8 + j);
        if n < j + d < n + 16 {
            lemma_linker_literal(j + d - n - 1);
        }
    }
}

/// The marker does not occur at a place inside the first copy of the
/// target, the one in the header: following the opening bracket of such an
/// occurrence once round the cycle would end eight places before the start
/// of the target.
proof fn lemma_not_inside_header(target: Seq<char>, set_rustflags: bool, at: int)
    requires
        9 <= at <= target.len() + 1,
    ensures
        !occurs_at(fresh_config(target, set_rustflags), section_marker(target), at),
{
    if occurs_at(fresh_config(target, set_rustflags), section_marker(target), at) {
        let d = at - 1;
        let cycle = target.len() + 16;
        lemma_inner_occurrence_recurs(target, set_rustflags, at);
        let (x, turns) = lemma_follow_bracket(target, d, d - 8, (cycle - 1) as nat);
        assert(x + 8 == (d - turns) * cycle) by (nonlinear_arith)
            requires
                x == (d - 8) + (cycle - 1) * d - turns * cycle,
        ;
        assert(false) by (nonlinear_arith)
            requires
                8 <= (d - turns) * cycle < cycle,
        ;
    }
}

/// An occurrence of the marker behind the header starts with a `[t` inside
/// the second copy of the target, and makes every `[t` of the target recur
/// further on inside the target.
proof fn lemma_outer_occurrence_recurs(target: Seq<char>, set_rustflags: bool, at: int)
    requires
        occurs_at(fresh_config(target, set_rustflags), section_marker(target), at),
        at >= target.len() + 25,
    ensures
        at - 17 - target.len() >= 8,
        header_start_at(target, at - 25 - target.len()),
        header_starts_recur(target, at - 17 - target.len()),
{
    let c = fresh_config(target, set_rustflags);
    let m = section_marker(target);
    let n = target.len() as int;
    let d = at - 17 - n;
    lemma_marker_at(target, 0);
    lemma_marker_at(target, 1);
    lemma_opening_literal(0);
    lemma_opening_literal(1);
    lemma_occurrence_holds(c, m, at, 0);
    lemma_occurrence_holds(c, m, at, 1);
    lemma_fresh_config_at(target, set_rustflags, at);
    lemma_fresh_config_at(target, set_rustflags, at + 1);
    // The occurrence cannot start in the lines that follow the second copy
    // of the target.
    if at >= 25 + 2 * n {
        if at < 41 + 2 * n {
            lemma_tail_literal(at - 25 - 2 * n);
        } else {
            lemma_flags_literal(at - 41 - 2 * n);
            lemma_flags_literal(13);
        }
        assert(false);
    }
    // Nor can its first eight characters reach out of that copy.
    if at + 8 > 25 + 2 * n {
        let i = 25 + 2 * n - at;
        lemma_marker_at(target, i);
        lemma_opening_literal(i);
        lemma_occurrence_holds(c, m, at, i);
        lemma_fresh_config_at(target, set_rustflags, at + i);
        lemma_tail_literal(0);
        assert(false);
    }
    assert forall|j: int| #[trigger] header_start_at(target, j) implies j + d + 1 < n && target[j
        + d] == '[' && target[j + d + 1] == 't' by {
        lemma_marker_at(target, 8 + j);
        lemma_marker_at(target, 9 + j);
        lemma_occurrence_holds(c, m, at, 8 + j);
        lemma_occurrence_holds(c, m, at, 9 + j);
        lemma_fresh_config_at(target, set_rustflags, at + 8 + j);
        lemma_fresh_config_at(target, set_rustflags, at + 9 + j);
        if j + d + 1 == n {
            lemma_tail_literal(0);
        } else if j + d + 1 > n {
            // The bracket lies in the lines behind the target, where the
            // only one is followed by a quotation mark.
            let k = j + d - n;
            if k < 16 {
                lemma_tail_literal(k);
            } else {
                lemma_flags_literal(k - 16);
                lemma_flags_literal(13);
            }
        }
    }
}

/// The marker does not occur at a place behind the header's linker line.
proof fn lemma_not_behind_header(target: Seq<char>, set_rustflags: bool, at: int)
    requires
        at >= target.len() + 25,
    ensures
        !occurs_at(fresh_config(target, set_rustflags), section_marker(target), at),
{
    if occurs_at(fresh_config(target, set_rustflags), section_marker(target), at) {
        lemma_outer_occurrence_recurs(target, set_rustflags, at);
        lemma_header_start_cannot_recur(
            target,
            at - 17 - target.len(),
            at - 25 - target.len(),
        );
    }
}

/// In a fresh configuration file the marker stands at the header of the
/// section and nowhere else.
proof fn lemma_marker_only_at_header(target: Seq<char>, set_rustflags: bool, at: int)
    requires
        occurs_at(fresh_config(target, set_rustflags), section_marker(target), at),
    ensures
        at == 1,
{
    let c = fresh_config(target, set_rustflags);
    let m = section_marker(target);
    let n = target.len() as int;
    lemma_marker_at(target, 0);
    lemma_opening_literal(0);
    lemma_occurrence_holds(c, m, at, 0);
    lemma_fresh_config_at(target, set_rustflags, at);
    if 2 <= at < 9 {
        lemma_opening_literal(at - 1);
    } else if 9 <= at <= n + 1 {
        lemma_not_inside_header(target, set_rustflags, at);
    } else if n + 2 <= at <= n + 9 {
        let i = 9 + n - at;
        lemma_marker_at(target, i);
        lemma_opening_literal(i);
        lemma_occurrence_holds(c, m, at, i);
        lemma_fresh_config_at(target, set_rustflags, at + i);
    } else if n + 10 <= at < n + 25 {
        lemma_linker_literal(at - 10 - n);
    } else if at >= n + 25 {
        lemma_not_behind_header(target, set_rustflags, at);
    }
}

/// Installing into a configuration file that is absent or empty writes a
/// file that holds exactly one section for the target: the newline, then
/// the section, whose marker occurs at that one place and at no other.
pub proof fn lemma_fresh_install_has_one_section(target: Seq<char>, set_rustflags: bool)
    ensures
        config_update(target, set_rustflags, None) == ConfigUpdateValue::Write(
            fresh_config(target, set_rustflags),
        ),
        config_update(target, set_rustflags, Some(Seq::empty())) == ConfigUpdateValue::Write(
            fresh_config(target, set_rustflags),
        ),
        occurs_in(fresh_config(target, set_rustflags), section_marker(target)),
        forall|at: int| #[trigger]
            occurs_at(fresh_config(target, set_rustflags), section_marker(target), at) <==> at
                == 1,
{
    let c = fresh_config(target, set_rustflags);
    let m = section_marker(target);
    lemma_fresh_config_layout(target, set_rustflags);
    lemma_marker_layout(target);
    assert(c.subrange(1, 1 + m.len() as int) =~= m);
    assert(occurs_at(c, m, 1));
    assert forall|at: int| #[trigger] occurs_at(c, m, at) implies at == 1 by {
        lemma_marker_only_at_header(target, set_rustflags, at);
    }
    assert(!occurs_in(Seq::<char>::empty(), m)) by {
        assert forall|at: int| !occurs_at(Seq::<char>::empty(), m, at) by {}
    }
}

/// Installing for the same target twice in a row, starting from a
/// configuration file that is absent, leaves the file of the first
/// installation: one section for the target, and the second call a no-op.
pub proof fn lemma_two_installs_leave_one_section(
    target: Seq<char>,
    first_rustflags: bool,
    second_rustflags: bool,
)
    ensures
        ({
            let once = config_after(None, config_update(target, first_rustflags, None));
            let twice = config_after(once, config_update(target, second_rustflags, once));
            &&& config_update(target, second_rustflags, once) == ConfigUpdateValue::Unchanged
            &&& twice == Some(fresh_config(target, first_rustflags))
            &&& forall|at: int| #[trigger]
                occurs_at(twice->0, section_marker(target), at) <==> at == 1
        }),
{
    lemma_fresh_install_has_one_section(target, first_rustflags);
    lemma_second_install_is_noop(target, first_rustflags, second_rustflags, None);
}

} // verus!
