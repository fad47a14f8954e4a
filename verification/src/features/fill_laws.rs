//! What becomes of a macro's line when its placeholders are filled in.

use vstd::prelude::*;

use super::macros::{filled_in, placeholder};
use crate::text::{occurs, replaced};

verus! {

/// A part of a line: text as it stands, or a place for a parameter.
pub enum Part {
    Text(Seq<char>),
    Slot(Seq<char>),
}

/// A part as it is written in a macro.
pub open spec fn part_text(part: Part) -> Seq<char> {
    match part {
        Part::Text(text) => text,
        Part::Slot(name) => seq!['{', '{'] + name + seq!['}', '}'],
    }
}

/// A line of such parts.
pub open spec fn line_of(parts: Seq<Part>) -> Seq<char>
    decreases parts.len(),
{
    if parts.len() == 0 {
        Seq::empty()
    } else {
        part_text(parts[0]) + line_of(parts.skip(1))
    }
}

pub open spec fn brace_free(s: Seq<char>) -> bool {
    forall|i: int| 0 <= i < s.len() ==> #[trigger] s[i] != '{' && s[i] != '}'
}

/// Parts whose texts and names hold no brace.
pub open spec fn plain_parts(parts: Seq<Part>) -> bool {
    forall|i: int|
        0 <= i < parts.len() ==> match #[trigger] parts[i] {
            Part::Text(text) => brace_free(text),
            Part::Slot(name) => brace_free(name),
        }
}

/// Values whose names and texts hold no brace.
pub open spec fn plain_values(values: Seq<(Seq<char>, Seq<char>)>) -> bool {
    forall|i: int|
        0 <= i < values.len() ==> brace_free((#[trigger] values[i]).0) && brace_free(values[i].1)
}

/// Whether no parameter is given twice.
pub open spec fn given_once(values: Seq<(Seq<char>, Seq<char>)>) -> bool {
    forall|i: int, j: int|
        0 <= i < j < values.len() ==> (#[trigger] values[i]).0 != (#[trigger] values[j]).0
}

// ---- replacing ----------------------------------------------------------

/// Where no match begins, text is passed over.
proof fn replacing_passes_over(head: Seq<char>, rest: Seq<char>, pat: Seq<char>, with: Seq<char>)
    requires
        pat.len() > 0,
        forall|i: int|
            0 <= i < head.len() && i + pat.len() <= head.len() + rest.len() ==> #[trigger] (head
                + rest).subrange(i, i + pat.len()) != pat,
    ensures
        replaced(head + rest, pat, with) == head + replaced(rest, pat, with),
    decreases head.len(),
{
    let s = head + rest;
    if head.len() == 0 {
        assert(s =~= rest);
        assert(head + replaced(rest, pat, with) =~= replaced(rest, pat, with));
    } else if s.len() < pat.len() {
        assert(rest.len() < pat.len());
    } else {
        assert(s.take(pat.len() as int) =~= s.subrange(0int, 0int + pat.len()));
        let tail = head.skip(1);
        assert(s.skip(1) =~= tail + rest);
        assert forall|i: int|
            0 <= i < tail.len() && i + pat.len() <= tail.len() + rest.len() implies #[trigger] (tail
            + rest).subrange(i, i + pat.len()) != pat by {
            assert((tail + rest).subrange(i, i + pat.len()) =~= s.subrange(
                i + 1,
                i + 1 + pat.len(),
            ));
        }
        replacing_passes_over(tail, rest, pat, with);
        assert(replaced(s, pat, with) =~= head + replaced(rest, pat, with));
    }
}

/// Nothing begins a placeholder in a text without braces.
proof fn text_is_passed_over(text: Seq<char>, rest: Seq<char>, name: Seq<char>, value: Seq<char>)
    requires
        brace_free(text),
    ensures
        replaced(text + rest, placeholder(name), value) == text + replaced(
            rest,
            placeholder(name),
            value,
        ),
{
    let pat = placeholder(name);
    let s = text + rest;
    assert forall|i: int|
        0 <= i < text.len() && i + pat.len() <= s.len() implies #[trigger] s.subrange(
        i,
        i + pat.len(),
    ) != pat by {
        assert(s.subrange(i, i + pat.len())[0] == text[i]);
        assert(pat[0] == '{');
    }
    replacing_passes_over(text, rest, pat, value);
}

/// The place of a parameter is filled, and that of another is passed over.
proof fn a_slot_is_filled_or_passed_over(
    slot: Seq<char>,
    rest: Seq<char>,
    name: Seq<char>,
    value: Seq<char>,
)
    requires
        brace_free(slot),
        brace_free(name),
    ensures
        replaced(part_text(Part::Slot(slot)) + rest, placeholder(name), value) == (if slot == name {
            value
        } else {
            part_text(Part::Slot(slot))
        }) + replaced(rest, placeholder(name), value),
{
    let pat = placeholder(name);
    let head = part_text(Part::Slot(slot));
    let s = head + rest;
    if slot == name {
        assert(head =~= pat);
        assert(s.take(pat.len() as int) =~= pat);
        assert(s.skip(pat.len() as int) =~= rest);
    } else {
        let n = slot.len() as int;
        assert(forall|k: int| 0 <= k < n ==> head[k + 2] == slot[k]);
        assert forall|i: int|
            0 <= i < head.len() && i + pat.len() <= s.len() implies #[trigger] s.subrange(
            i,
            i + pat.len(),
        ) != pat by {
            let m = s.subrange(i, i + pat.len());
            if m == pat {
                assert(m[0] == '{' && m[1] == '{');
                assert(s[i] == head[i]);
                if i == 0 {
                    if n <= name.len() {
                        assert forall|k: int| 0 <= k < n implies slot[k] == name[k] by {
                            assert(m[k + 2] == s[k + 2]);
                            assert(pat[k + 2] == name[k]);
                            assert(head[k + 2] == slot[k]);
                        }
                        if n == name.len() {
                            assert(slot =~= name);
                        } else {
                            assert(m[n + 2] == s[n + 2] && head[n + 2] == '}');
                            assert(pat[n + 2] == name[n]);
                        }
                    } else {
                        let k = name.len() as int;
                        assert(m[k + 2] == s[k + 2] && head[k + 2] == slot[k]);
                        assert(pat[k + 2] == '}');
                    }
                } else if i == 1 {
                    assert(m[1] == s[2]);
                    if n > 0 {
                        assert(head[2] == slot[0]);
                    } else {
                        assert(head[2] == '}');
                    }
                } else if i < n + 2 {
                    assert(head[i] == slot[i - 2]);
                } else {
                    assert(head[i] == '}');
                }
            }
        }
        replacing_passes_over(head, rest, pat, value);
    }
}

/// Parts with one parameter filled in.
pub open spec fn with_one(parts: Seq<Part>, name: Seq<char>, value: Seq<char>) -> Seq<Part> {
    parts.map_values(
        |part: Part|
            if part == Part::Slot(name) {
                Part::Text(value)
            } else {
                part
            },
    )
}

proof fn one_parameter_is_filled_in(parts: Seq<Part>, name: Seq<char>, value: Seq<char>)
    requires
        plain_parts(parts),
        brace_free(name),
    ensures
        replaced(line_of(parts), placeholder(name), value) == line_of(with_one(parts, name, value)),
    decreases parts.len(),
{
    let after = with_one(parts, name, value);
    if parts.len() > 0 {
        let rest = parts.skip(1);
        assert(after.skip(1) =~= with_one(rest, name, value));
        assert forall|i: int| 0 <= i < rest.len() implies match #[trigger] rest[i] {
            Part::Text(text) => brace_free(text),
            Part::Slot(n) => brace_free(n),
        } by {
            assert(rest[i] == parts[i + 1]);
        }
        one_parameter_is_filled_in(rest, name, value);
        match parts[0] {
            Part::Text(text) => text_is_passed_over(text, line_of(rest), name, value),
            Part::Slot(slot) => a_slot_is_filled_or_passed_over(slot, line_of(rest), name, value),
        }
    }
}

// ---- the line -----------------------------------------------------------

/// What is given for a parameter, if anything is.
pub open spec fn given(values: Seq<(Seq<char>, Seq<char>)>, name: Seq<char>) -> Option<Seq<char>> {
    if exists|i: int| 0 <= i < values.len() && (#[trigger] values[i]).0 == name {
        Some(values[choose|i: int| 0 <= i < values.len() && (#[trigger] values[i]).0 == name].1)
    } else {
        None
    }
}

/// Parts with every parameter filled in that something is given for.
pub open spec fn with_all(parts: Seq<Part>, values: Seq<(Seq<char>, Seq<char>)>) -> Seq<Part> {
    parts.map_values(
        |part: Part|
            match part {
                Part::Text(text) => Part::Text(text),
                Part::Slot(name) => match given(values, name) {
                    Some(value) => Part::Text(value),
                    None => Part::Slot(name),
                },
            },
    )
}

proof fn what_is_given(values: Seq<(Seq<char>, Seq<char>)>, i: int)
    requires
        given_once(values),
        0 <= i < values.len(),
    ensures
        given(values, values[i].0) == Some(values[i].1),
{
    let name = values[i].0;
    assert(values[i].0 == name);
    let k = choose|k: int| 0 <= k < values.len() && (#[trigger] values[k]).0 == name;
    if k < i {
        assert(values[k].0 != values[i].0);
    } else if i < k {
        assert(values[i].0 != values[k].0);
    }
}

/// A line whose texts and names hold no brace is filled in place by place: every
/// parameter that a value is given for is replaced by that value wherever it
/// stands, and everything else is sent as it is.
pub proof fn every_place_is_filled(parts: Seq<Part>, values: Seq<(Seq<char>, Seq<char>)>)
    requires
        plain_parts(parts),
        plain_values(values),
        given_once(values),
    ensures
        filled_in(line_of(parts), values) == line_of(with_all(parts, values)),
    decreases values.len(),
{
    if values.len() == 0 {
        assert(with_all(parts, values) =~= parts);
    } else {
        let before = values.drop_last();
        let (name, value) = values.last();
        let n = values.len() - 1;
        assert(values[n] == (name, value));
        assert forall|i: int| 0 <= i < before.len() implies brace_free((#[trigger] before[i]).0)
            && brace_free(before[i].1) by {
            assert(before[i] == values[i]);
        }
        assert forall|i: int, j: int| 0 <= i < j < before.len() implies (#[trigger] before[i]).0 != (
        #[trigger] before[j]).0 by {
            assert(before[i] == values[i] && before[j] == values[j]);
        }
        every_place_is_filled(parts, before);
        let so_far = with_all(parts, before);
        assert forall|i: int| 0 <= i < so_far.len() implies match #[trigger] so_far[i] {
            Part::Text(text) => brace_free(text),
            Part::Slot(s) => brace_free(s),
        } by {
            match parts[i] {
                Part::Text(text) => {},
                Part::Slot(slot) => {
                    if exists|k: int| 0 <= k < before.len() && (#[trigger] before[k]).0 == slot {
                        let k = choose|k: int|
                            0 <= k < before.len() && (#[trigger] before[k]).0 == slot;
                        assert(brace_free(before[k].1));
                    }
                },
            }
        }
        one_parameter_is_filled_in(so_far, name, value);
        assert(with_one(so_far, name, value) =~= with_all(parts, values)) by {
            assert forall|i: int| 0 <= i < parts.len() implies with_one(so_far, name, value)[i]
                == #[trigger] with_all(parts, values)[i] by {
                if let Part::Slot(slot) = parts[i] {
                    if slot == name {
                        what_is_given(values, n);
                        if exists|k: int| 0 <= k < before.len() && (#[trigger] before[k]).0 == slot {
                            let k = choose|k: int|
                                0 <= k < before.len() && (#[trigger] before[k]).0 == slot;
                            assert(values[k].0 != values[n].0);
                        }
                    } else if exists|k: int|
                        0 <= k < before.len() && (#[trigger] before[k]).0 == slot {
                        let k = choose|k: int|
                            0 <= k < before.len() && (#[trigger] before[k]).0 == slot;
                        what_is_given(before, k);
                        assert(values[k] == before[k]);
                        what_is_given(values, k);
                    } else if exists|k: int|
                        0 <= k < values.len() && (#[trigger] values[k]).0 == slot {
                        let k = choose|k: int|
                            0 <= k < values.len() && (#[trigger] values[k]).0 == slot;
                        assert(k < n);
                        assert(before[k].0 == slot);
                    }
                }
            }
        }
    }
}

/// Two parameters in a line each get their own value, in whichever order the
/// values are given.
pub proof fn two_places_get_two_values(
    t0: Seq<char>,
    n1: Seq<char>,
    t1: Seq<char>,
    n2: Seq<char>,
    t2: Seq<char>,
    v1: Seq<char>,
    v2: Seq<char>,
)
    requires
        brace_free(t0) && brace_free(t1) && brace_free(t2),
        brace_free(n1) && brace_free(n2) && brace_free(v1) && brace_free(v2),
        n1 != n2,
    ensures
        ({
            let line = t0 + seq!['{', '{'] + n1 + seq!['}', '}'] + t1 + seq!['{', '{'] + n2 + seq![
                '}',
                '}',
            ] + t2;
            &&& filled_in(line, seq![(n1, v1), (n2, v2)]) == t0 + v1 + t1 + v2 + t2
            &&& filled_in(line, seq![(n2, v2), (n1, v1)]) == t0 + v1 + t1 + v2 + t2
        }),
{
    let line = t0 + seq!['{', '{'] + n1 + seq!['}', '}'] + t1 + seq!['{', '{'] + n2 + seq![
        '}',
        '}',
    ] + t2;
    let parts = seq![
        Part::Text(t0),
        Part::Slot(n1),
        Part::Text(t1),
        Part::Slot(n2),
        Part::Text(t2),
    ];
    let full = seq![
        Part::Text(t0),
        Part::Text(v1),
        Part::Text(t1),
        Part::Text(v2),
        Part::Text(t2),
    ];
    let one = seq![(n1, v1), (n2, v2)];
    let other = seq![(n2, v2), (n1, v1)];
    five_parts(parts);
    five_parts(full);
    assert(line_of(parts) =~= line);
    assert(line_of(full) =~= t0 + v1 + t1 + v2 + t2);
    assert(one[0] == (n1, v1) && one[1] == (n2, v2) && other[0] == (n2, v2) && other[1] == (n1, v1));
    every_place_is_filled(parts, one);
    every_place_is_filled(parts, other);
    what_is_given(one, 0);
    what_is_given(one, 1);
    what_is_given(other, 0);
    what_is_given(other, 1);
    assert(with_all(parts, one) =~= full);
    assert(with_all(parts, other) =~= full);
}

proof fn five_parts(parts: Seq<Part>)
    requires
        parts.len() == 5,
    ensures
        line_of(parts) == part_text(parts[0]) + part_text(parts[1]) + part_text(parts[2])
            + part_text(parts[3]) + part_text(parts[4]),
{
    reveal_with_fuel(line_of, 6);
    assert(parts.skip(1)[0] == parts[1]);
    assert(parts.skip(1).skip(1)[0] == parts[2]);
    assert(parts.skip(1).skip(1).skip(1)[0] == parts[3]);
    assert(parts.skip(1).skip(1).skip(1).skip(1)[0] == parts[4]);
    assert(line_of(parts) =~= part_text(parts[0]) + part_text(parts[1]) + part_text(parts[2])
        + part_text(parts[3]) + part_text(parts[4]));
}

proof fn a_longer_text_shows(s: Seq<char>, pat: Seq<char>, with: Seq<char>)
    requires
        pat.len() > 0,
        with.len() > pat.len(),
    ensures
        replaced(s, pat, with).len() >= s.len(),
        occurs(s, pat) ==> replaced(s, pat, with).len() > s.len(),
    decreases s.len(),
{
    if s.len() >= pat.len() {
        if s.take(pat.len() as int) == pat {
            a_longer_text_shows(s.skip(pat.len() as int), pat, with);
        } else {
            a_longer_text_shows(s.skip(1), pat, with);
            if occurs(s, pat) {
                let i = choose|i: int|
                    0 <= i && i + pat.len() <= s.len() && #[trigger] s.subrange(i, i + pat.len())
                        == pat;
                assert(s.subrange(0int, 0int + pat.len()) =~= s.take(pat.len() as int));
                assert(i > 0);
                assert(s.skip(1).subrange(i - 1, i - 1 + pat.len()) =~= s.subrange(
                    i,
                    i + pat.len(),
                ));
            }
        }
    }
}

/// Once a line is filled in, no placeholder of a parameter that was given is
/// left in it.
pub proof fn no_given_placeholder_is_left(
    parts: Seq<Part>,
    values: Seq<(Seq<char>, Seq<char>)>,
    i: int,
)
    requires
        plain_parts(parts),
        plain_values(values),
        given_once(values),
        0 <= i < values.len(),
    ensures
        !occurs(
            filled_in(line_of(parts), values),
            seq!['{', '{'] + values[i].0 + seq!['}', '}'],
        ),
{
    every_place_is_filled(parts, values);
    what_is_given(values, i);
    let name = values[i].0;
    let pat = placeholder(name);
    let after = with_all(parts, values);
    let longer = Seq::new(pat.len() + 1, |k: int| 'x');
    assert forall|k: int| 0 <= k < after.len() implies match #[trigger] after[k] {
        Part::Text(text) => brace_free(text),
        Part::Slot(s) => brace_free(s),
    } by {
        if let Part::Slot(slot) = parts[k] {
            if exists|j: int| 0 <= j < values.len() && (#[trigger] values[j]).0 == slot {
                let j = choose|j: int| 0 <= j < values.len() && (#[trigger] values[j]).0 == slot;
                assert(brace_free(values[j].1));
            }
        }
    }
    one_parameter_is_filled_in(after, name, longer);
    assert(with_one(after, name, longer) =~= after) by {
        assert forall|k: int| 0 <= k < after.len() implies #[trigger] after[k] != Part::Slot(name) by {
            if let Part::Slot(slot) = parts[k] {
            }
        }
    }
    a_longer_text_shows(line_of(after), pat, longer);
}

} // verus!
