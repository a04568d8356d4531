//! When the section for a target carries the static-linking directive, and
//! when it does not.
//!
//! With the switch set, the directive is the last line of the section.
//! Without it, the text of the directive is absent from the section, unless
//! the target identifier itself brings it in: the section repeats the target,
//! and closes the first copy with a bracket and a newline, as the directive
//! ends.

use crate::config::{base_section, section_block, static_flags_directive};
use crate::text::{lemma_occurrence_holds, lemma_occurs_between, occurs_at, occurs_in};
use vstd::prelude::*;

verus! {

/// The directive, place by place, as far as the proofs here look at it.
proof fn lemma_directive_literal(k: int)
    requires
        0 <= k < 49,
    ensures
        static_flags_directive().len() == 49,
        k == 0 ==> static_flags_directive()[k] == 'r',
        k == 1 ==> static_flags_directive()[k] == 'u',
        (static_flags_directive()[k] == ']') == (k == 47),
        (static_flags_directive()[k] == '\n') == (k == 48),
{
    reveal_strlit("rustflags = [\"-C\", \"target-feature=+crt-static\"]\n");
}

/// Where the fixed parts of the section hold an `r`, no `u` follows.
proof fn lemma_fixed_parts_literal(k: int)
    ensures
        "[target."@.len() == 8,
        "\nlinker = \"zig-"@.len() == 15,
        "\"\nar = \"zig-ar\"\n"@.len() == 16,
        "]"@.len() == 1,
        "]"@[0] == ']',
        "\nlinker = \"zig-"@[0] == '\n',
        "\"\nar = \"zig-ar\"\n"@[0] == '"',
        "\"\nar = \"zig-ar\"\n"@[1] == '\n',
        0 <= k < 7 && "[target."@[k] == 'r' ==> "[target."@[k + 1] != 'u',
        "[target."@[7] != 'r',
        0 <= k < 14 && "\nlinker = \"zig-"@[k] == 'r' ==> "\nlinker = \"zig-"@[k + 1] != 'u',
        "\nlinker = \"zig-"@[14] != 'r',
{
    reveal_strlit("[target.");
    reveal_strlit("]");
    reveal_strlit("\nlinker = \"zig-");
    reveal_strlit("\"\nar = \"zig-ar\"\n");
}

/// The character of the plain section at one place.
proof fn lemma_base_section_at(target: Seq<char>, i: int)
    ensures
        ({
            let s = base_section(target);
            let n = target.len() as int;
            &&& s.len() == 40 + 2 * n
            &&& 0 <= i < 8 ==> s[i] == "[target."@[i]
            &&& 8 <= i < 8 + n ==> s[i] == target[i - 8]
            &&& i == 8 + n ==> s[i] == ']'
            &&& 9 + n <= i < 24 + n ==> s[i] == "\nlinker = \"zig-"@[i - 9 - n]
            &&& 24 + n <= i < 24 + 2 * n ==> s[i] == target[i - 24 - n]
            &&& 24 + 2 * n <= i < 40 + 2 * n ==> s[i] == "\"\nar = \"zig-ar\"\n"@[i - 24 - 2 * n]
        }),
{
    lemma_fixed_parts_literal(0);
}

/// The character of the target closed by `]` and a newline, at one place.
proof fn lemma_closed_target_at(target: Seq<char>, i: int)
    ensures
        ({
            let closed = target + "]\n"@;
            let n = target.len() as int;
            &&& closed.len() == n + 2
            &&& 0 <= i < n ==> closed[i] == target[i]
            &&& i == n ==> closed[i] == ']'
            &&& i == n + 1 ==> closed[i] == '\n'
        }),
{
    reveal_strlit("]\n");
}

/// An occurrence of the directive in the plain section lies in the first
/// copy of the target and the bracket and newline behind it, or in the second
/// copy of the target.
proof fn lemma_directive_comes_with_target(target: Seq<char>, at: int)
    requires
        occurs_at(base_section(target), static_flags_directive(), at),
    ensures
        occurs_in(target + "]\n"@, static_flags_directive()),
{
    let s = base_section(target);
    let d = static_flags_directive();
    let n = target.len() as int;
    let closed = target + "]\n"@;
    lemma_closed_target_at(target, 0);
    lemma_directive_literal(0);
    lemma_directive_literal(1);
    lemma_occurrence_holds(s, d, at, 0);
    lemma_occurrence_holds(s, d, at, 1);
    lemma_base_section_at(target, at);
    lemma_base_section_at(target, at + 1);
    if at < 8 {
        lemma_fixed_parts_literal(at);
        assert(false);
    } else if at <= 8 + n {
        if at + 49 <= 8 + n {
            assert forall|i: int| 0 <= i < 49 implies closed[at - 8 + i] == d[i] by {
                lemma_occurrence_holds(s, d, at, i);
                lemma_base_section_at(target, at + i);
                lemma_closed_target_at(target, at - 8 + i);
            }
        } else {
            let i = 8 + n - at;
            lemma_occurrence_holds(s, d, at, i);
            lemma_base_section_at(target, at + i);
            lemma_directive_literal(i);
            assert(at + 49 == 10 + n);
            assert forall|i: int| 0 <= i < 49 implies closed[at - 8 + i] == d[i] by {
                lemma_occurrence_holds(s, d, at, i);
                lemma_base_section_at(target, at + i);
                lemma_closed_target_at(target, at - 8 + i);
                lemma_fixed_parts_literal(0);
            }
        }
        assert(closed.subrange(at - 8, at - 8 + 49) =~= d);
        assert(occurs_at(closed, d, at - 8));
    } else if at < 24 + n {
        lemma_fixed_parts_literal(at - 9 - n);
        assert(false);
    } else if at + 49 <= 24 + 2 * n {
        assert forall|i: int| 0 <= i < 49 implies closed[at - 24 - n + i] == d[i] by {
            lemma_occurrence_holds(s, d, at, i);
            lemma_base_section_at(target, at + i);
            lemma_closed_target_at(target, at - 24 - n + i);
        }
        assert(closed.subrange(at - 24 - n, at - 24 - n + 49) =~= d);
        assert(occurs_at(closed, d, at - 24 - n));
    } else {
        // The occurrence would run over the quotation mark and the newline
        // that follow the second copy of the target.
        assert(at < 24 + 2 * n);
        let i = 24 + 2 * n - at;
        lemma_occurrence_holds(s, d, at, i);
        lemma_base_section_at(target, at + i);
        lemma_fixed_parts_literal(0);
        lemma_directive_literal(i);
        if i < 48 {
            lemma_occurrence_holds(s, d, at, i + 1);
            lemma_base_section_at(target, at + i + 1);
            lemma_directive_literal(i + 1);
        }
        assert(false);
    }
}

/// Where the closed target spells the directive out, so does the plain
/// section, eight places further on.
proof fn lemma_target_brings_directive(target: Seq<char>, at: int)
    requires
        occurs_at(target + "]\n"@, static_flags_directive(), at),
    ensures
        occurs_at(base_section(target), static_flags_directive(), 8 + at),
{
    let d = static_flags_directive();
    let plain = base_section(target);
    let closed = target + "]\n"@;
    lemma_directive_literal(0);
    lemma_closed_target_at(target, 0);
    lemma_base_section_at(target, 0);
    assert forall|i: int| 0 <= i < 49 implies plain[8 + at + i] == d[i] by {
        lemma_occurrence_holds(closed, d, at, i);
        lemma_closed_target_at(target, at + i);
        lemma_base_section_at(target, 8 + at + i);
        lemma_fixed_parts_literal(0);
    }
    assert(plain.subrange(8 + at, 8 + at + 49) =~= d);
}

/// The static-linking directive follows the switch.
///
/// With the switch set, the section is the plain section followed by the
/// directive. Without it, the section is the plain section, and the text
/// of the directive occurs in it only where the target identifier, closed by
/// its bracket and the newline, spells it out; in particular it is absent for
/// every target that does not hold the directive's first 47 characters.
pub proof fn lemma_static_flags_follow_the_switch(target: Seq<char>)
    ensures
        section_block(target, true) == section_block(target, false) + static_flags_directive(),
        occurs_in(section_block(target, true), static_flags_directive()),
        section_block(target, false) == base_section(target),
        occurs_in(section_block(target, false), static_flags_directive()) <==> occurs_in(
            target + "]\n"@,
            static_flags_directive(),
        ),
{
    let d = static_flags_directive();
    let plain = base_section(target);
    let closed = target + "]\n"@;
    lemma_occurs_between(plain, d, Seq::empty());
    assert(plain + d + Seq::empty() =~= section_block(target, true));
    if occurs_in(plain, d) {
        let at = choose|at: int| occurs_at(plain, d, at);
        lemma_directive_comes_with_target(target, at);
    }
    if occurs_in(closed, d) {
        let at = choose|at: int| occurs_at(closed, d, at);
        lemma_target_brings_directive(target, at);
    }
}

} // verus!
