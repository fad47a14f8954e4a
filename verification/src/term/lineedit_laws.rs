//! What is read off the row of a prompt, with the row written out.

use vstd::prelude::*;

use super::cell::Cell;
use super::lineedit::{
    after_colon, class_of, held, landing, line_at, namespace_at, word_left, word_right, Class,
    LineEdit, Motion,
};
use super::state::{used, GridState};
use super::syntax::{chars_in, prompt};
use super::syntax_laws::{a_namespace_is_a_prompt, is_word, typed_at};
use crate::text::{unicode_alphanumeric, white_space};

verus! {

/// A grid whose cursor stands behind what was typed at a prompt.
pub open spec fn at_a_prompt(s: GridState, name: Seq<char>, typed: Seq<char>) -> bool {
    &&& is_word(name)
    &&& name.len() + typed.len() < usize::MAX
    &&& s.cursor.row < s.screen.len()
    &&& chars_in(s.screen[s.cursor.row as int].cells) == typed_at(name, typed)
    &&& s.cursor.col == name.len() + 1 + typed.len()
}

proof fn nothing_shows_past_the_row(cells: Seq<Cell>)
    ensures
        used(cells) <= cells.len(),
    decreases cells.len(),
{
    if cells.len() > 0 {
        nothing_shows_past_the_row(cells.drop_last());
    }
}

/// The command line is what stands behind the prompt, from its first column to
/// the cursor, and that is the text that was typed.
pub proof fn what_was_typed_is_read(s: GridState, name: Seq<char>, typed: Seq<char>)
    requires
        at_a_prompt(s, name, typed),
    ensures
        ({
            let n = name.len() + 1;
            &&& line_at(s) == Some(
                LineEdit {
                    start: n as usize,
                    cursor: (n + typed.len()) as usize,
                    end: (n + typed.len()) as usize,
                },
            )
            &&& held(s, n as int, (n + typed.len()) as int) == typed
            &&& namespace_at(s) == Some(name)
        }),
{
    a_namespace_is_a_prompt(name, typed);
    let cells = s.screen[s.cursor.row as int].cells;
    nothing_shows_past_the_row(cells);
    let row = typed_at(name, typed);
    let n = (name.len() + 1) as int;
    assert(chars_in(cells).len() == cells.len());
    assert(row.subrange(n, n + typed.len()) =~= typed);
    assert(row.take(n - 1) =~= name);
    a_name_without_a_colon(name);
}

proof fn a_name_without_a_colon(name: Seq<char>)
    requires
        forall|i: int| 0 <= i < name.len() ==> #[trigger] name[i] != ':',
    ensures
        after_colon(name) == name,
    decreases name.len(),
{
    if name.len() > 0 {
        assert(name[name.len() - 1] != ':');
        assert forall|i: int| 0 <= i < name.drop_last().len() implies #[trigger] name.drop_last()[i]
            != ':' by {
            assert(name[i] != ':');
        }
        a_name_without_a_colon(name.drop_last());
        assert(name.drop_last().push(name.last()) =~= name);
    } else {
        assert(name =~= Seq::empty());
    }
}

/// The namespace is what stands behind the last colon of a prompt.
pub proof fn a_prefix_is_left_off(prefix: Seq<char>, name: Seq<char>)
    requires
        forall|i: int| 0 <= i < name.len() ==> #[trigger] name[i] != ':',
    ensures
        after_colon(prefix + seq![':'] + name) == name,
    decreases name.len(),
{
    let s = prefix + seq![':'] + name;
    if name.len() == 0 {
        assert(s.last() == ':');
        assert(name =~= Seq::empty());
    } else {
        assert(s.last() == name.last());
        assert(name[name.len() - 1] != ':');
        assert(s.drop_last() =~= prefix + seq![':'] + name.drop_last());
        assert forall|i: int| 0 <= i < name.drop_last().len() implies #[trigger] name.drop_last()[i]
            != ':' by {
            assert(name[i] != ':');
        }
        a_prefix_is_left_off(prefix, name.drop_last());
        assert(name.drop_last().push(name.last()) =~= name);
    }
}

/// A movement lands where its name says: one column to the left or the right,
/// at the start or the end of what was typed, and nowhere outside of that.
pub proof fn a_movement_lands_where_it_says(s: GridState, line: LineEdit, from: int)
    requires
        line.start <= from <= line.end,
    ensures
        landing(s, line, from, Motion::Left) == if from > line.start { from - 1 } else { from },
        landing(s, line, from, Motion::Right) == if from < line.end { from + 1 } else { from },
        landing(s, line, from, Motion::LineStart) == line.start,
        landing(s, line, from, Motion::LineEnd) == line.end,
{
}

/// Letters, digits and the underscore are words, white space is space, and the
/// rest are symbols.
pub proof fn three_kinds_of_characters(ch: char)
    ensures
        white_space(ch) ==> class_of(ch) == Class::Space,
        !white_space(ch) && (unicode_alphanumeric(ch) || ch == '_') ==> class_of(ch)
            == Class::Word,
        !white_space(ch) && !unicode_alphanumeric(ch) && ch != '_' ==> class_of(ch)
            == Class::Symbol,
{
}

/// Between two words with a blank between them, Ctrl+Right goes from the start of
/// the first to the start of the second, and Ctrl+Left the same way back.
pub proof fn words_are_crossed_whole(first: Seq<char>, second: Seq<char>)
    requires
        first.len() > 0,
        second.len() > 0,
        forall|i: int| 0 <= i < first.len() ==> class_of(#[trigger] first[i]) == Class::Word,
        forall|i: int| 0 <= i < second.len() ==> class_of(#[trigger] second[i]) == Class::Word,
    ensures
        ({
            let s = first + seq![' '] + second;
            let n = first.len() as int;
            &&& word_right(s, 0) == n + 1
            &&& word_right(s, n + 1) == s.len()
            &&& word_left(s, s.len() as int) == n + 1
            &&& word_left(s, n + 1) == 0
        }),
{
    let s = first + seq![' '] + second;
    let n = first.len() as int;
    let m = s.len() as int;
    assert forall|i: int| 0 <= i < n implies class_of(#[trigger] s[i]) == Class::Word by {
        assert(s[i] == first[i]);
    }
    assert forall|i: int| n + 1 <= i < m implies class_of(#[trigger] s[i]) == Class::Word by {
        assert(s[i] == second[i - n - 1]);
    }
    assert(s[n] == ' ');
    assert(class_of(s[0]) == Class::Word && class_of(s[n + 1]) == Class::Word && class_of(s[n])
        == Class::Space && class_of(s[m - 1]) == Class::Word && class_of(s[n - 1]) == Class::Word);
    run_to(s, 0, n, Class::Word);
    run_to(s, n, n + 1, Class::Space);
    run_to(s, n + 1, m, Class::Word);
    run_to(s, m, m, Class::Space);
    run_from(s, m, m, Class::Space);
    run_from(s, n + 1, m, Class::Word);
    run_from(s, n, n + 1, Class::Space);
    run_from(s, 0, n, Class::Word);
}

proof fn run_to(s: Seq<char>, at: int, end: int, kind: Class)
    requires
        0 <= at <= end <= s.len(),
        forall|i: int| at <= i < end ==> class_of(#[trigger] s[i]) == kind,
        end < s.len() ==> class_of(s[end]) != kind,
    ensures
        super::lineedit::run_end(s, at, kind) == end,
    decreases end - at,
{
    if at < end {
        assert(class_of(s[at]) == kind);
        run_to(s, at + 1, end, kind);
    }
}

proof fn run_from(s: Seq<char>, start: int, at: int, kind: Class)
    requires
        0 <= start <= at <= s.len(),
        forall|i: int| start <= i < at ==> class_of(#[trigger] s[i]) == kind,
        start > 0 ==> class_of(s[start - 1]) != kind,
    ensures
        super::lineedit::run_start(s, at, kind) == start,
    decreases at - start,
{
    if start < at {
        assert(class_of(s[at - 1]) == kind);
        run_from(s, start, at - 1, kind);
    }
}

} // verus!
