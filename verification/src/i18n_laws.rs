//! What becomes of a sentence and its placeholders.

use vstd::prelude::*;

use crate::i18n::{both_filled, entry_of, filled, placeholder_at, translated, Lang, PT_BR};

verus! {

/// A text in which no placeholder stands, nor begins.
pub open spec fn no_placeholder(s: Seq<char>) -> bool {
    forall|i: int| 0 <= i < s.len() ==> #[trigger] s[i] != '{'
}

proof fn the_first_placeholder(s: Seq<char>, from: int, at: int)
    requires
        0 <= from <= at,
        at + 2 <= s.len(),
        s[at] == '{',
        s[at + 1] == '}',
        forall|i: int| 0 <= i < at ==> #[trigger] s[i] != '{',
    ensures
        placeholder_at(s, from) == Some(at),
    decreases at - from,
{
    if from < at {
        the_first_placeholder(s, from + 1, at);
    }
}

proof fn none_to_fill(s: Seq<char>, from: int)
    requires
        0 <= from,
        no_placeholder(s),
    ensures
        placeholder_at(s, from) is None,
    decreases s.len() - from,
{
    if from < s.len() {
        none_to_fill(s, from + 1);
    }
}

/// A placeholder is filled where it stands, with whatever is given for it.
pub proof fn a_placeholder_is_filled_where_it_stands(
    before: Seq<char>,
    arg: Seq<char>,
    rest: Seq<char>,
)
    requires
        no_placeholder(before),
    ensures
        filled(before + seq!['{', '}'] + rest, arg) == before + arg + rest,
        filled(before, arg) == before,
{
    let s = before + seq!['{', '}'] + rest;
    let n = before.len() as int;
    assert forall|i: int| 0 <= i < n implies #[trigger] s[i] != '{' by {
        assert(s[i] == before[i]);
    }
    assert(s[n] == '{' && s[n + 1] == '}');
    the_first_placeholder(s, 0, n);
    assert(s.take(n) =~= before);
    assert(s.skip(n + 2) =~= rest);
    none_to_fill(before, 0);
}

/// Two placeholders are filled from left to right, each with its own.
pub proof fn two_placeholders_are_filled_in_order(
    before: Seq<char>,
    first: Seq<char>,
    between: Seq<char>,
    second: Seq<char>,
    rest: Seq<char>,
)
    requires
        no_placeholder(before),
        no_placeholder(between),
    ensures
        both_filled(
            before + seq!['{', '}'] + between + seq!['{', '}'] + rest,
            first,
            second,
        ) == before + first + between + second + rest,
{
    let tail = between + seq!['{', '}'] + rest;
    let s = before + seq!['{', '}'] + between + seq!['{', '}'] + rest;
    let n = before.len() as int;
    assert(s =~= before + seq!['{', '}'] + tail);
    assert forall|i: int| 0 <= i < n implies #[trigger] s[i] != '{' by {
        assert(s[i] == before[i]);
    }
    assert(s[n] == '{' && s[n + 1] == '}');
    the_first_placeholder(s, 0, n);
    assert(s.take(n) =~= before);
    assert(s.skip(n + 2) =~= tail);
    a_placeholder_is_filled_where_it_stands(between, second, rest);
    assert(before + first + (between + second + rest) =~= before + first + between + second + rest);
}

/// A sentence of the table is translated by its own entry.
pub proof fn a_sentence_is_translated_by_its_entry(i: int)
    requires
        0 <= i < PT_BR@.len(),
        forall|k: int| 0 <= k < i ==> (#[trigger] PT_BR@[k]).0@ != PT_BR@[i].0@,
    ensures
        translated(Lang::PtBr, PT_BR@[i].0@) == PT_BR@[i].1@,
        translated(Lang::En, PT_BR@[i].0@) == PT_BR@[i].0@,
{
    the_entry_is_found(i, 0);
}

proof fn the_entry_is_found(i: int, from: int)
    requires
        0 <= from <= i < PT_BR@.len(),
        forall|k: int| 0 <= k < i ==> (#[trigger] PT_BR@[k]).0@ != PT_BR@[i].0@,
    ensures
        entry_of(PT_BR@[i].0@, from) == Some(i),
    decreases i - from,
{
    if from < i {
        the_entry_is_found(i, from + 1);
    }
}

} // verus!
