//! What a value means and how it is shown, with the numbers written out.

use vstd::prelude::*;

use super::doc_answer::{
    answer_of, fixed_of, header_of, map_named, piece_of, sequence_of, value_list_of, Answer, MARK,
    MARK_END, MARK_MAP,
};
use super::doc_lookup::{
    date_of, decimal_of, delimiter, formatted, label_of, map_for, meaning, names, of_run,
    places_of, power_of_ten, run_at, said_of, time_of, FormattedState, MapState, PieceState,
};
use crate::calendar::{
    a_day_is_shown_one_way, day_number, is_date, last_day, month_length, shown, shows_day,
    LAST_YEAR,
};
use crate::number::{grouped, is_digits, padded, unsigned, value, what_is_written_is_read};
use crate::text::{ascii_alnum, count, digits, split, trim};
use crate::text_laws::{
    a_cut_is_at_the_first, a_grouped_number, a_padded_number, a_sign_in_front, rejoined,
    trimming_takes_off_what_is_around, without_stops,
};

verus! {

// ---- the calendar -------------------------------------------------------

/// The months have the days they have, and every fourth year is a leap year but
/// for the centuries that four hundred does not divide.
pub proof fn the_months_have_their_days(year: int)
    ensures
        month_length(year, 1) == 31 && month_length(year, 3) == 31 && month_length(year, 5) == 31
            && month_length(year, 7) == 31 && month_length(year, 8) == 31 && month_length(year, 10)
            == 31 && month_length(year, 12) == 31,
        month_length(year, 4) == 30 && month_length(year, 6) == 30 && month_length(year, 9) == 30
            && month_length(year, 11) == 30,
        year % 400 == 0 ==> month_length(year, 2) == 29,
        year % 100 == 0 && year % 400 != 0 ==> month_length(year, 2) == 28,
        year % 4 == 0 && year % 100 != 0 ==> month_length(year, 2) == 29,
        year % 4 != 0 ==> month_length(year, 2) == 28,
{
}

/// A day later is a number more: within a month, from a month's end to the next,
/// and from a year's end to the next.
pub proof fn a_day_later_is_a_number_more(year: int, month: int, day: int)
    requires
        is_date(year, month, day),
    ensures
        day < month_length(year, month) ==> day_number(year, month, day + 1) == day_number(
            year,
            month,
            day,
        ) + 1,
        month < 12 ==> day_number(year, month + 1, 1) == day_number(
            year,
            month,
            month_length(year, month),
        ) + 1,
        day_number(year + 1, 1, 1) == day_number(year, 12, 31) + 1,
{
    reveal_with_fuel(crate::calendar::before_month, 13);
    let y = year - 1;
    assert(365 * (y + 1) == 365 * y + 365);
    assert((y + 1) / 4 == y / 4 + if (y + 1) % 4 == 0 { 1int } else { 0 });
    assert((y + 1) / 100 == y / 100 + if (y + 1) % 100 == 0 { 1int } else { 0 });
    assert((y + 1) / 400 == y / 400 + if (y + 1) % 400 == 0 { 1int } else { 0 });
    assert(year % 400 == 0 ==> year % 100 == 0);
    assert(year % 100 == 0 ==> year % 4 == 0);
}

/// A date is shown as its day and its month in two digits each and its year in
/// four, with strokes between them.
pub proof fn a_date_is_day_month_year(year: int, month: int, day: int)
    requires
        is_date(year, month, day),
        1 <= year <= 9999,
    ensures
        ({
            let s = shown(year, month, day);
            &&& s.len() == 10
            &&& value(s.subrange(0, 2)) == day
            &&& s[2] == '/'
            &&& value(s.subrange(3, 5)) == month
            &&& s[5] == '/'
            &&& value(s.subrange(6, 10)) == year
        }),
{
    let s = shown(year, month, day);
    a_padded_number(day as nat, 2);
    a_padded_number(month as nat, 2);
    a_padded_number(year as nat, 4);
    reveal_with_fuel(digits, 5);
    assert(padded(day as nat, 2).len() == 2);
    assert(padded(month as nat, 2).len() == 2);
    assert(padded(year as nat, 4).len() == 4);
    assert(s.subrange(0, 2) =~= padded(day as nat, 2));
    assert(s.subrange(3, 5) =~= padded(month as nat, 2));
    assert(s.subrange(6, 10) =~= padded(year as nat, 4));
}

proof fn digits_are_trimmed(n: nat)
    ensures
        trim(digits(n)) == digits(n),
        digits(n).len() > 0,
        is_digits(digits(n)),
        value(digits(n)) == n,
{
    a_padded_number(n, 0);
    what_is_written_is_read(n, n as int);
    let d = digits(n);
    assert(padded(n, 0) == d);
    some_digits(n);
    assert(crate::text::ascii_digit(padded(n, 0)[0]));
    assert(crate::text::ascii_digit(padded(n, 0)[d.len() - 1]));
    let nothing = Seq::<char>::empty();
    trimming_takes_off_what_is_around(nothing, d, nothing);
    assert(nothing + d + nothing =~= d);
}

proof fn some_digits(n: nat)
    ensures
        digits(n).len() > 0,
{
}

/// A date is a number of days after the 31st of December 1840.
pub proof fn days_are_counted_from_1840(year: int, month: int, day: int)
    requires
        is_date(year, month, day),
        1 <= year <= LAST_YEAR,
        day_number(1840, 12, 31) <= day_number(year, month, day) <= last_day(),
        day_number(year, month, day) - day_number(1840, 12, 31) <= 0x7fff_ffff_ffff_ffff,
    ensures
        date_of(digits((day_number(year, month, day) - day_number(1840, 12, 31)) as nat)) == Some(
            shown(year, month, day),
        ),
{
    let number = day_number(year, month, day);
    let days = (number - day_number(1840, 12, 31)) as nat;
    digits_are_trimmed(days);
    a_sign_in_front(days);
    let text = shown(year, month, day);
    assert(shows_day(text, number));
    let other = choose|text: Seq<char>| shows_day(text, number);
    a_day_is_shown_one_way(text, other, number);
}

/// A time is a number of seconds since midnight, shown in hours, minutes and
/// seconds of two digits each; a day has no more of them.
pub proof fn seconds_are_counted_from_midnight(h: nat, m: nat, s: nat, late: nat)
    requires
        h < 24,
        m < 60,
        s < 60,
        86_400 <= late <= u32::MAX,
    ensures
        ({
            let shown = time_of(digits(h * 3600 + m * 60 + s));
            &&& shown is Some
            &&& shown->0.len() == 8
            &&& value(shown->0.subrange(0, 2)) == h
            &&& shown->0[2] == ':'
            &&& value(shown->0.subrange(3, 5)) == m
            &&& shown->0[5] == ':'
            &&& value(shown->0.subrange(6, 8)) == s
        }),
        time_of(digits(late)) is None,
{
    let n = (h * 3600 + m * 60 + s) as nat;
    digits_are_trimmed(n);
    digits_are_trimmed(late);
    what_is_written_is_read(n, u32::MAX as int);
    what_is_written_is_read(late, u32::MAX as int);
    assert(n / 3600 == h && (n % 3600) / 60 == m && n % 60 == s);
    a_padded_number(h, 2);
    a_padded_number(m, 2);
    a_padded_number(s, 2);
    reveal_with_fuel(digits, 3);
    assert(padded(h, 2).len() == 2 && padded(m, 2).len() == 2 && padded(s, 2).len() == 2);
    let t = time_of(digits(n))->0;
    assert(t.subrange(0, 2) =~= padded(h, 2));
    assert(t.subrange(3, 5) =~= padded(m, 2));
    assert(t.subrange(6, 8) =~= padded(s, 2));
}

/// A number of so many places is shown with a comma before them: what stands
/// before the comma and behind it is the number again.
pub proof fn a_comma_stands_before_the_places(n: nat, places: nat)
    requires
        n <= u64::MAX,
        1 <= places,
        power_of_ten(places) <= u64::MAX,
    ensures
        ({
            let whole = grouped(n / power_of_ten(places));
            let part = padded(n % power_of_ten(places), places);
            &&& decimal_of(digits(n), places) == Some(whole + seq![','] + part)
            &&& n > 0 ==> decimal_of(seq!['-'] + digits(n), places) == Some(
                seq!['-'] + whole + seq![','] + part,
            )
            &&& value(without_stops(whole)) * power_of_ten(places) + value(part) == n
            &&& part.len() >= places
        }),
        decimal_of(digits(n), 0) == Some(grouped(n)),
{
    let scale = power_of_ten(places);
    a_power_is_positive(places);
    digits_are_trimmed(n);
    a_sign_in_front_is_trimmed(n);
    a_grouped_number(n / scale);
    a_padded_number(n % scale, places);
    assert((n / scale) * scale + n % scale == n) by (nonlinear_arith)
        requires
            scale > 0,
    ;
    let d = digits(n);
    let negative = seq!['-'] + d;
    assert(negative.skip(1) =~= d);
    assert(crate::text::ascii_digit(d[0]));
    let whole = grouped(n / scale);
    let part = padded(n % scale, places);
    assert(decimal_of(d, places)->0 =~= whole + seq![','] + part);
    if n > 0 {
        assert(decimal_of(negative, places)->0 =~= seq!['-'] + whole + seq![','] + part);
    }
    assert(n / 1 == n);
    assert(decimal_of(d, 0)->0 =~= grouped(n));
}

proof fn a_sign_in_front_is_trimmed(n: nat)
    ensures
        trim(seq!['-'] + digits(n)) == seq!['-'] + digits(n),
{
    digits_are_trimmed(n);
    let s = seq!['-'] + digits(n);
    assert(s.last() == digits(n).last());
    assert(crate::text::ascii_digit(digits(n)[digits(n).len() - 1]));
    let nothing = Seq::<char>::empty();
    trimming_takes_off_what_is_around(nothing, s, nothing);
    assert(nothing + s + nothing =~= s);
}

proof fn a_power_is_positive(n: nat)
    ensures
        power_of_ten(n) > 0,
        power_of_ten(n + 1) == 10 * power_of_ten(n),
        power_of_ten(0) == 1,
    decreases n,
{
    if n > 0 {
        a_power_is_positive((n - 1) as nat);
    }
}

/// How many places a number has stands behind the comma of its size.
pub proof fn the_places_stand_behind_the_comma(whole: Seq<char>, n: nat)
    requires
        !whole.contains(','),
        n <= u32::MAX,
    ensures
        places_of(whole + seq![','] + digits(n)) == Some(n as int),
        places_of(whole) is None,
{
    a_cut_is_at_the_first(whole, digits(n), ',');
    digits_are_trimmed(n);
    what_is_written_is_read(n, u32::MAX as int);
}

/// A label that is given for a value is what is shown of it, before anything
/// else is tried; a value that is blank is shown as nothing.
pub proof fn a_label_comes_first(piece: PieceState, raw: Seq<char>, i: int)
    requires
        0 <= i < piece.value_list.len(),
        piece.value_list[i].0 == raw,
        forall|k: int| 0 <= k < i ==> (#[trigger] piece.value_list[k]).0 != raw,
    ensures
        trim(raw).len() > 0 ==> formatted(piece, raw) == FormattedState::Value(
            piece.value_list[i].1,
        ),
        trim(raw).len() == 0 ==> formatted(piece, raw) == FormattedState::Nothing,
{
    the_first_label(piece.value_list, raw, i);
}

proof fn the_first_label(list: Seq<(Seq<char>, Seq<char>)>, raw: Seq<char>, i: int)
    requires
        0 <= i < list.len(),
        list[i].0 == raw,
        forall|k: int| 0 <= k < i ==> (#[trigger] list[k]).0 != raw,
    ensures
        label_of(list, raw) == Some(list[i].1),
    decreases i,
{
    if i > 0 {
        assert(list[0].0 != raw);
        let rest = list.skip(1);
        assert forall|k: int| 0 <= k < i - 1 implies (#[trigger] rest[k]).0 != raw by {
            assert(rest[k] == list[k + 1]);
        }
        assert(rest[i - 1] == list[i]);
        the_first_label(rest, raw, i - 1);
    }
}

/// Without a label, dates and times are shown as such and refused where they are
/// none; other values only if their size says how many places they have.
pub proof fn a_kind_says_how_to_show(piece: PieceState, raw: Seq<char>)
    requires
        trim(raw).len() > 0,
        label_of(piece.value_list, raw) is None,
    ensures
        names(piece.kind, "%Date"@) ==> formatted(piece, raw) == match date_of(raw) {
            Some(text) => FormattedState::Value(text),
            None => FormattedState::Invalid,
        },
        !names(piece.kind, "%Date"@) && names(piece.kind, "%Time"@) ==> formatted(piece, raw)
            == match time_of(raw) {
            Some(text) => FormattedState::Value(text),
            None => FormattedState::Invalid,
        },
        !names(piece.kind, "%Date"@) && !names(piece.kind, "%Time"@) && !piece.size.contains(',')
            ==> formatted(piece, raw) == FormattedState::Nothing,
{
    if !piece.size.contains(',') {
        a_cut_is_at_the_first(piece.size, Seq::empty(), ',');
    }
}

// ---- which piece --------------------------------------------------------

/// The map that is taken describes the row: it has as many subscripts, and each
/// of its constants stands where it says; and no map before it does.
pub proof fn the_first_map_that_describes_the_row(
    maps: Seq<MapState>,
    subscripts: Seq<Seq<char>>,
    i: int,
)
    requires
        0 <= i < maps.len(),
        maps[i].keys == subscripts.len(),
        forall|k: int|
            0 <= k < maps[i].fixed.len() ==> 1 <= (#[trigger] maps[i].fixed[k]).0
                <= subscripts.len() && subscripts[maps[i].fixed[k].0 - 1] == maps[i].fixed[k].1,
        forall|j: int|
            0 <= j < i ==> (#[trigger] maps[j]).keys != subscripts.len() || exists|k: int|
                0 <= k < maps[j].fixed.len() && (#[trigger] maps[j].fixed[k]).0 >= 1
                    && maps[j].fixed[k].0 <= subscripts.len() && subscripts[maps[j].fixed[k].0 - 1]
                    != maps[j].fixed[k].1,
    ensures
        map_for(maps, subscripts) == Some(maps[i]),
    decreases i,
{
    assert(maps[i].describes(subscripts));
    if i > 0 {
        assert(maps[0].keys != subscripts.len() || exists|k: int|
            0 <= k < maps[0].fixed.len() && (#[trigger] maps[0].fixed[k]).0 >= 1
                && maps[0].fixed[k].0 <= subscripts.len() && subscripts[maps[0].fixed[k].0 - 1]
                != maps[0].fixed[k].1);
        assert(!maps[0].describes(subscripts));
        let rest = maps.skip(1);
        assert(rest[i - 1] == maps[i]);
        assert forall|j: int| 0 <= j < i - 1 implies (#[trigger] rest[j]).keys != subscripts.len()
            || exists|k: int|
            0 <= k < rest[j].fixed.len() && (#[trigger] rest[j].fixed[k]).0 >= 1
                && rest[j].fixed[k].0 <= subscripts.len() && subscripts[rest[j].fixed[k].0 - 1]
                != rest[j].fixed[k].1 by {
            assert(rest[j] == maps[j + 1]);
        }
        the_first_map_that_describes_the_row(rest, subscripts, i - 1);
    }
}

/// A piece that one entry of the map is about means what that entry says, all of
/// it; one that no entry is about means nothing.
pub proof fn a_piece_means_what_its_entry_says(
    maps: Seq<MapState>,
    subscripts: Seq<Seq<char>>,
    before: Seq<PieceState>,
    entry: PieceState,
    after: Seq<PieceState>,
    text: Seq<char>,
    offset: int,
)
    requires
        map_for(maps, subscripts) matches Some(map) && map.pieces == before + seq![entry] + after,
        entry.sub is None,
        forall|i: int| 0 <= i < before.len() ==> (#[trigger] before[i]).piece != entry.piece,
        forall|i: int| 0 <= i < after.len() ==> (#[trigger] after[i]).piece != entry.piece,
    ensures
        meaning(maps, subscripts, entry.piece, text, offset) == Some((entry, text)),
{
    let n = entry.piece;
    said_in_turn(before + seq![entry], after, n);
    said_in_turn(before, seq![entry], n);
    nothing_said(before, n);
    nothing_said(after, n);
    reveal_with_fuel(said_of, 2);
    assert(seq![entry].drop_last() =~= Seq::empty());
    assert(said_of(before + seq![entry] + after, n) =~= seq![entry]);
}

proof fn said_in_turn(a: Seq<PieceState>, b: Seq<PieceState>, n: int)
    ensures
        said_of(a + b, n) == said_of(a, n) + said_of(b, n),
    decreases b.len(),
{
    if b.len() == 0 {
        assert(a + b =~= a);
        assert(said_of(a, n) + said_of(b, n) =~= said_of(a, n));
    } else {
        assert((a + b).drop_last() =~= a + b.drop_last());
        said_in_turn(a, b.drop_last(), n);
        assert(said_of(a + b, n) =~= said_of(a, n) + said_of(b, n));
    }
}

proof fn nothing_said(pieces: Seq<PieceState>, n: int)
    requires
        forall|i: int| 0 <= i < pieces.len() ==> (#[trigger] pieces[i]).piece != n,
    ensures
        said_of(pieces, n) == Seq::<PieceState>::empty(),
    decreases pieces.len(),
{
    if pieces.len() > 0 {
        assert(pieces[pieces.len() - 1].piece != n);
        assert forall|i: int| 0 <= i < pieces.drop_last().len() implies (
        #[trigger] pieces.drop_last()[i]).piece != n by {
            assert(pieces[i].piece != n);
        }
        nothing_said(pieces.drop_last(), n);
    }
}

/// Within a piece that is made of runs, the run under the pointer is one more
/// than there are delimiters before it.
pub proof fn runs_are_counted_from_one(a: Seq<char>, delim: char, b: Seq<char>, offset: int)
    requires
        !a.contains(delim),
        0 <= offset <= b.len(),
    ensures
        run_at(a, delim, 0) == 1,
        run_at(a + seq![delim] + b, delim, a.len() as int) == 1,
        run_at(a + seq![delim] + b, delim, a.len() + 1 + offset) == 1 + run_at(b, delim, offset),
{
    let s = a + seq![delim] + b;
    let n = a.len() as int;
    assert(a.take(0) =~= Seq::empty());
    assert(s.take(n) =~= a);
    none_to_count(a, delim);
    assert(s.take(n + 1 + offset) =~= a + seq![delim] + b.take(offset));
    counting_in_turn(a + seq![delim], b.take(offset), delim);
    counting_in_turn(a, seq![delim], delim);
    reveal_with_fuel(count, 2);
    assert(seq![delim].drop_last() =~= Seq::empty());
}

proof fn none_to_count(s: Seq<char>, c: char)
    requires
        !s.contains(c),
    ensures
        count(s, c) == 0,
    decreases s.len(),
{
    if s.len() > 0 {
        assert(s[s.len() - 1] != c);
        assert forall|i: int| 0 <= i < s.drop_last().len() implies s.drop_last()[i] != c by {
            assert(s[i] != c);
        }
        none_to_count(s.drop_last(), c);
    }
}

proof fn counting_in_turn(a: Seq<char>, b: Seq<char>, c: char)
    ensures
        count(a + b, c) == count(a, c) + count(b, c),
    decreases b.len(),
{
    if b.len() == 0 {
        assert(a + b =~= a);
    } else {
        assert((a + b).drop_last() =~= a + b.drop_last());
        counting_in_turn(a, b.drop_last(), c);
    }
}

// ---- the answer ---------------------------------------------------------

/// Fields that hold no separator come apart as they were put together.
pub proof fn fields_come_apart(fields: Seq<Seq<char>>, sep: char)
    requires
        fields.len() > 0,
        forall|i: int| 0 <= i < fields.len() ==> !(#[trigger] fields[i]).contains(sep),
    ensures
        split(rejoined(fields, sep), sep) == fields,
    decreases fields.len(),
{
    let n = fields.len() - 1;
    if n == 0 {
        one_field(fields[0], sep);
        assert(seq![fields[0]] =~= fields);
    } else {
        let before = fields.drop_last();
        assert forall|i: int| 0 <= i < before.len() implies !(#[trigger] before[i]).contains(sep) by {
            assert(!fields[i].contains(sep));
        }
        fields_come_apart(before, sep);
        assert(!fields[n].contains(sep));
        one_more_field(rejoined(before, sep), fields[n], sep);
        assert(before.push(fields[n]) =~= fields);
    }
}

proof fn one_field(s: Seq<char>, sep: char)
    requires
        !s.contains(sep),
    ensures
        split(s, sep) == seq![s],
    decreases s.len(),
{
    if s.len() == 0 {
        assert(s =~= Seq::empty());
    } else {
        assert(s[s.len() - 1] != sep);
        assert forall|i: int| 0 <= i < s.drop_last().len() implies s.drop_last()[i] != sep by {
            assert(s[i] != sep);
        }
        one_field(s.drop_last(), sep);
        assert(s.drop_last().push(s.last()) =~= s);
        assert(split(s, sep) =~= seq![s]);
    }
}

proof fn one_more_field(head: Seq<char>, field: Seq<char>, sep: char)
    requires
        !field.contains(sep),
    ensures
        split(head + seq![sep] + field, sep) == split(head, sep).push(field),
    decreases field.len(),
{
    let s = head + seq![sep] + field;
    if field.len() == 0 {
        assert(s.drop_last() =~= head);
        assert(field =~= Seq::empty());
    } else {
        assert(s.drop_last() =~= head + seq![sep] + field.drop_last());
        assert(s.last() == field.last());
        assert(field[field.len() - 1] != sep);
        assert forall|i: int| 0 <= i < field.drop_last().len() implies field.drop_last()[i] != sep by {
            assert(field[i] != sep);
        }
        one_more_field(head, field.drop_last(), sep);
        assert(field.drop_last().push(field.last()) =~= field);
        assert(split(s, sep) =~= split(head, sep).push(field));
    }
}

proof fn the_marks()
    ensures
        MARK_MAP@ == "##CSWMAP##"@,
        MARK@ == "##CSWTIP##"@,
        MARK_END@ == "##CSWTIPEND##"@,
        MARK_MAP@.len() == 10,
        MARK@.len() == 10,
        MARK_END@.len() == 13,
        MARK_MAP@[5] == 'M',
        MARK@[5] == 'T',
        MARK@[0] == '#' && MARK_MAP@[0] == '#',
        MARK_END@[8] == 'E',
        MARK@[8] == '#' && MARK_MAP@[8] == '#',
{
    reveal_strlit("##CSWMAP##");
    reveal_strlit("##CSWTIP##");
    reveal_strlit("##CSWTIPEND##");
}

proof fn a_marked_line(answer: Answer, mark: Seq<char>, text: Seq<char>)
    requires
        mark == MARK@ || mark == MARK_MAP@,
    ensures
        ({
            let line = mark + text + seq!['#', '#'];
            answer.line(line) == if mark == MARK_MAP@ {
                answer.add_map(split(text, '|'))
            } else {
                answer.add_piece(split(text, '|'))
            }
        }),
{
    the_marks();
    let line = mark + text + seq!['#', '#'];
    let nothing = Seq::<char>::empty();
    assert(line[0] == mark[0] && line.last() == '#');
    trimming_takes_off_what_is_around(nothing, line, nothing);
    assert(nothing + line + nothing =~= line);
    assert(line[8] == mark[8]);
    assert(line != MARK_END@);
    assert(line.subrange(0, 10) =~= mark);
    assert(line.subrange(10, line.len() - 2) =~= text);
    assert(mark[5] != (if mark == MARK_MAP@ { MARK@ } else { MARK_MAP@ })[5]);
}

/// A line that describes a map says, between its marks, the class, the map, how
/// many subscripts a row has, and which of them are constant.
pub proof fn a_map_is_read(
    answer: Answer,
    class: Seq<char>,
    map: Seq<char>,
    keys: nat,
    fixed: Seq<char>,
)
    requires
        !class.contains('|') && !map.contains('|') && !fixed.contains('|'),
        keys <= usize::MAX,
    ensures
        ({
            let line = "##CSWMAP##"@ + (class + seq!['|'] + map + seq!['|'] + digits(keys) + seq![
                '|',
            ] + fixed) + seq!['#', '#'];
            let after = answer.line(line);
            &&& after.complete == answer.complete
            &&& after.maps == answer.maps.push(
                (
                    class + seq!['|'] + map,
                    MapState {
                        keys: keys as int,
                        fixed: fixed_of(split(fixed, ',')),
                        pieces: Seq::empty(),
                    },
                ),
            )
        }),
{
    the_marks();
    let fields = seq![class, map, digits(keys), fixed];
    digits_are_trimmed(keys);
    what_is_written_is_read(keys, usize::MAX as int);
    digits_hold_no_bar(keys);
    fields_come_apart(fields, '|');
    reveal_with_fuel(rejoined, 5);
    assert(fields.drop_last() =~= seq![class, map, digits(keys)]);
    assert(fields.drop_last().drop_last() =~= seq![class, map]);
    assert(fields.drop_last().drop_last().drop_last() =~= seq![class]);
    let text = class + seq!['|'] + map + seq!['|'] + digits(keys) + seq!['|'] + fixed;
    assert(rejoined(fields, '|') =~= text);
    a_marked_line(answer, MARK_MAP@, text);
}

proof fn digits_hold_no_bar(n: nat)
    ensures
        !digits(n).contains('|'),
        !digits(n).contains(','),
        !digits(n).contains(':'),
{
    digits_are_trimmed(n);
    assert forall|i: int| 0 <= i < digits(n).len() implies digits(n)[i] != '|' && digits(n)[i]
        != ',' && digits(n)[i] != ':' by {
        assert(crate::text::ascii_digit(digits(n)[i]));
    }
}

/// A constant subscript is a position and a value with a colon between them.
pub proof fn a_constant_is_read(before: Seq<Seq<char>>, at: nat, value_text: Seq<char>)
    requires
        at <= usize::MAX,
    ensures
        fixed_of(before.push(digits(at) + seq![':'] + value_text)) == fixed_of(before).push(
            (at as int, value_text),
        ),
{
    let entry = digits(at) + seq![':'] + value_text;
    digits_hold_no_bar(at);
    a_cut_is_at_the_first(digits(at), value_text, ':');
    digits_are_trimmed(at);
    what_is_written_is_read(at, usize::MAX as int);
    assert(before.push(entry).drop_last() =~= before);
}

/// A line that describes a piece says its class and map, its number, the
/// delimiter of its runs, its description, its size and its kind, and then its
/// values and their labels; it goes to the map of that class and name.
pub proof fn a_piece_is_read(
    maps: Seq<(Seq<char>, MapState)>,
    info: MapState,
    class: Seq<char>,
    map: Seq<char>,
    piece: nat,
    description: Seq<char>,
    size: Seq<char>,
    kind: Seq<char>,
)
    requires
        !class.contains('|') && !map.contains('|') && !description.contains('|') && !size.contains(
            '|',
        ) && !kind.contains('|'),
        piece <= usize::MAX,
        forall|i: int| 0 <= i < maps.len() ==> (#[trigger] maps[i]).0 != class + seq!['|'] + map,
    ensures
        ({
            let id = class + seq!['|'] + map;
            let line = "##CSWTIP##"@ + (class + seq!['|'] + map + seq!['|'] + digits(piece) + seq![
                '|',
                '|',
            ] + description + seq!['|'] + size + seq!['|'] + kind) + seq!['#', '#'];
            let answer = Answer { maps: maps.push((id, info)), complete: false };
            let entry = PieceState {
                piece: piece as int,
                sub: None,
                sub_delim: None,
                description,
                size,
                kind,
                value_list: value_list_of(Seq::empty(), Seq::empty()),
            };
            answer.line(line).maps == maps.push(
                (id, MapState { pieces: info.pieces.push(entry), ..info }),
            )
        }),
{
    the_marks();
    let id = class + seq!['|'] + map;
    let nothing = Seq::<char>::empty();
    let fields = seq![class, map, digits(piece), nothing, description, size, kind];
    digits_are_trimmed(piece);
    what_is_written_is_read(piece, usize::MAX as int);
    digits_hold_no_bar(piece);
    a_cut_is_at_the_first(digits(piece), nothing, ',');
    fields_come_apart(fields, '|');
    let text = class + seq!['|'] + map + seq!['|'] + digits(piece) + seq!['|', '|'] + description
        + seq!['|'] + size + seq!['|'] + kind;
    seven_fields(fields);
    assert(rejoined(fields, '|') =~= text);
    let answer = Answer { maps: maps.push((id, info)), complete: false };
    a_marked_line(answer, MARK@, text);
    let n = maps.len() as int;
    let all = maps.push((id, info));
    assert forall|i: int| 0 <= i < n implies (#[trigger] all[i]).0 != id by {
        assert(all[i] == maps[i]);
    }
    the_map_is_found(all, id, 0, n);
    let entry = PieceState {
        piece: piece as int,
        sub: None,
        sub_delim: None,
        description,
        size,
        kind,
        value_list: value_list_of(Seq::empty(), Seq::empty()),
    };
    assert(piece_of(fields) == Some(entry));
    assert(super::doc_answer::map_id(fields) =~= id);
    assert(all.update(n, (id, MapState { pieces: info.pieces.push(entry), ..info })) =~= maps.push(
        (id, MapState { pieces: info.pieces.push(entry), ..info }),
    ));
}

proof fn seven_fields(fields: Seq<Seq<char>>)
    requires
        fields.len() == 7,
    ensures
        rejoined(fields, '|') == fields[0] + seq!['|'] + fields[1] + seq!['|'] + fields[2] + seq![
            '|',
        ] + fields[3] + seq!['|'] + fields[4] + seq!['|'] + fields[5] + seq!['|'] + fields[6],
{
    reveal_with_fuel(rejoined, 8);
    let six = fields.drop_last();
    let five = six.drop_last();
    let four = five.drop_last();
    let three = four.drop_last();
    let two = three.drop_last();
    let one = two.drop_last();
    assert(one.len() == 1 && one[0] == fields[0]);
    assert(two.last() == fields[1] && three.last() == fields[2] && four.last() == fields[3]
        && five.last() == fields[4] && six.last() == fields[5]);
}

proof fn the_map_is_found(maps: Seq<(Seq<char>, MapState)>, id: Seq<char>, from: int, at: int)
    requires
        0 <= from <= at < maps.len(),
        maps[at].0 == id,
        forall|i: int| 0 <= i < at ==> (#[trigger] maps[i]).0 != id,
    ensures
        map_named(maps, id, from) == Some(at),
    decreases at - from,
{
    if from < at {
        the_map_is_found(maps, id, from + 1, at);
    }
}

/// A piece's number may have that of a run behind a comma.
pub proof fn a_run_is_numbered_behind_a_comma(piece: nat, sub: nat)
    requires
        piece <= usize::MAX,
        sub <= usize::MAX,
    ensures
        sequence_of(digits(piece) + seq![','] + digits(sub)) == Some(
            (piece as int, Some(sub as int)),
        ),
        sequence_of(digits(piece)) == Some((piece as int, None::<int>)),
{
    digits_hold_no_bar(piece);
    a_cut_is_at_the_first(digits(piece), digits(sub), ',');
    digits_are_trimmed(piece);
    digits_are_trimmed(sub);
    what_is_written_is_read(piece, usize::MAX as int);
    what_is_written_is_read(sub, usize::MAX as int);
}

/// The answer is complete at its end mark and not before.
pub proof fn the_end_mark_completes(answer: Answer, lines: Seq<Seq<char>>)
    ensures
        answer.line("##CSWTIPEND##"@).complete,
        answer.line("##CSWTIPEND##"@).maps == answer.maps,
        (forall|i: int| 0 <= i < lines.len() ==> trim(#[trigger] lines[i]) != "##CSWTIPEND##"@)
            ==> !answer_of(lines).complete,
    decreases lines.len(),
{
    the_marks();
    let nothing = Seq::<char>::empty();
    reveal_strlit("##CSWTIPEND##");
    trimming_takes_off_what_is_around(nothing, MARK_END@, nothing);
    assert(nothing + MARK_END@ + nothing =~= MARK_END@);
    if lines.len() > 0 && (forall|i: int|
        0 <= i < lines.len() ==> trim(#[trigger] lines[i]) != "##CSWTIPEND##"@) {
        assert(trim(lines[lines.len() - 1]) != MARK_END@);
        assert forall|i: int| 0 <= i < lines.drop_last().len() implies trim(
            #[trigger] lines.drop_last()[i],
        ) != "##CSWTIPEND##"@ by {
            assert(trim(lines[i]) != "##CSWTIPEND##"@);
        }
        the_end_mark_completes(answer, lines.drop_last());
    }
}

/// In a piece made of runs, the pointer is on the run that its entry numbers, and
/// what is meant is that entry and the text of that run.
pub proof fn a_run_means_what_its_entry_says(
    maps: Seq<MapState>,
    subscripts: Seq<Seq<char>>,
    first: PieceState,
    second: PieceState,
    a: Seq<char>,
    delim: char,
    b: Seq<char>,
    offset: int,
)
    requires
        map_for(maps, subscripts) matches Some(map) && map.pieces == seq![first, second],
        first.piece == second.piece,
        first.sub == Some(1int),
        second.sub == Some(2int),
        first.sub_delim == Some(delim),
        !a.contains(delim),
        !b.contains(delim),
        0 <= offset <= a.len() + 1 + b.len(),
    ensures
        meaning(maps, subscripts, first.piece, a + seq![delim] + b, offset) == if offset <= a.len() {
            Some((first, a))
        } else {
            Some((second, b))
        },
{
    let text = a + seq![delim] + b;
    let pieces = seq![first, second];
    let n = first.piece;
    reveal_with_fuel(said_of, 3);
    assert(pieces.drop_last() =~= seq![first]);
    assert(seq![first].drop_last() =~= Seq::empty());
    assert(said_of(pieces, n) =~= pieces);
    assert(delimiter(pieces) == Some(delim));
    reveal_with_fuel(of_run, 3);
    assert(pieces.skip(1) =~= seq![second]);
    let fields = seq![a, b];
    fields_come_apart(fields, delim);
    reveal_with_fuel(rejoined, 3);
    assert(fields.drop_last() =~= seq![a]);
    assert(rejoined(fields, delim) =~= text);
    none_to_count(b, delim);
    if offset <= a.len() {
        let head = text.take(offset);
        assert(head =~= a.take(offset));
        assert(!head.contains(delim)) by {
            if head.contains(delim) {
                let k = choose|k: int| 0 <= k < head.len() && head[k] == delim;
                assert(a[k] == delim);
            }
        }
        none_to_count(head, delim);
    } else {
        let rest = offset - a.len() - 1;
        runs_are_counted_from_one(a, delim, b, rest);
        let part = b.take(rest);
        assert(!part.contains(delim)) by {
            if part.contains(delim) {
                let k = choose|k: int| 0 <= k < part.len() && part[k] == delim;
                assert(b[k] == delim);
            }
        }
        none_to_count(part, delim);
    }
}

/// Values and labels are paired one for one, behind the empty one that begins
/// either list.
pub proof fn values_are_paired_with_labels(v: Seq<char>, w: Seq<char>, x: Seq<char>, y: Seq<char>)
    requires
        v.len() > 0,
        w.len() > 0,
        !v.contains(',') && !w.contains(',') && !x.contains(',') && !y.contains(','),
    ensures
        value_list_of(seq![','] + v + seq![','] + w, seq![','] + x + seq![','] + y) == seq![
            (v, x),
            (w, y),
        ],
        value_list_of(seq![','] + v, seq![','] + x) == seq![(v, x)],
{
    let nothing = Seq::<char>::empty();
    let values = seq![nothing, v, w];
    let labels = seq![nothing, x, y];
    fields_come_apart(values, ',');
    fields_come_apart(labels, ',');
    fields_come_apart(seq![nothing, v], ',');
    fields_come_apart(seq![nothing, x], ',');
    reveal_with_fuel(rejoined, 4);
    assert(values.drop_last() =~= seq![nothing, v]);
    assert(labels.drop_last() =~= seq![nothing, x]);
    assert(seq![nothing, v].drop_last() =~= seq![nothing]);
    assert(seq![nothing, x].drop_last() =~= seq![nothing]);
    assert(rejoined(values, ',') =~= seq![','] + v + seq![','] + w);
    assert(rejoined(labels, ',') =~= seq![','] + x + seq![','] + y);
    assert(rejoined(seq![nothing, v], ',') =~= seq![','] + v);
    assert(rejoined(seq![nothing, x], ',') =~= seq![','] + x);
    reveal_with_fuel(super::doc_answer::listed, 4);
    assert(super::doc_answer::listed(values, labels, 3) =~= seq![(v, x), (w, y)]);
    assert(super::doc_answer::listed(seq![nothing, v], seq![nothing, x], 2) =~= seq![(v, x)]);
}

/// A piece line says where the piece is, what delimits its runs, and what it is,
/// in that order.
pub proof fn a_piece_is_described_field_by_field(fields: Seq<Seq<char>>)
    ensures
        fields.len() < 7 ==> piece_of(fields) is None,
        fields.len() >= 7 ==> (piece_of(fields) is Some == sequence_of(fields[2]) is Some),
        piece_of(fields) matches Some(piece) ==> {
            &&& sequence_of(fields[2]) == Some((piece.piece, piece.sub))
            &&& fields[3].len() == 0 ==> piece.sub_delim is None
            &&& fields[3].len() > 0 ==> piece.sub_delim == Some(fields[3][0])
            &&& piece.description == fields[4]
            &&& piece.size == fields[5]
            &&& piece.kind == fields[6]
            &&& fields.len() >= 9 ==> piece.value_list == value_list_of(fields[7], fields[8])
            &&& fields.len() == 8 ==> piece.value_list == value_list_of(fields[7], Seq::empty())
            &&& fields.len() == 7 ==> piece.value_list == value_list_of(Seq::empty(), Seq::empty())
        },
{
}

/// A data type is named where its whole name stands, at the end of a class or in
/// front of what is no part of a name.
pub proof fn a_type_is_named_by_its_whole_name(front: Seq<char>, name: Seq<char>, rest: Seq<char>)
    ensures
        names(front + name, name),
        rest.len() > 0 && !ascii_alnum(rest[0]) ==> names(front + name + rest, name),
        rest.len() > 0 && ascii_alnum(rest[0]) && (forall|i: int|
            0 <= i && i + name.len() <= (front + name + rest).len() && #[trigger] (front + name
                + rest).subrange(i, i + name.len()) == name ==> i == front.len()) ==> !names(
            front + name + rest,
            name,
        ),
{
    let n = front.len() as int;
    let short = front + name;
    let long = front + name + rest;
    assert(short.subrange(n, n + name.len()) =~= name);
    assert(long.subrange(n, n + name.len()) =~= name);
    if rest.len() > 0 {
        assert(long[n + name.len()] == rest[0]);
    }
}

/// A date is a day of one of the twelve months, counted from one.
pub proof fn which_days_are_dates(year: int, month: int, day: int)
    ensures
        1 <= month <= 12 ==> is_date(year, month, 1) && is_date(
            year,
            month,
            month_length(year, month),
        ),
        day < 1 || day > month_length(year, month) ==> !is_date(year, month, day),
        month < 1 || month > 12 ==> !is_date(year, month, day),
        1 <= month <= 12 && 1 <= day <= 28 ==> is_date(year, month, day),
{
}

/// A map line says which class and map it is, how many keys lead to it, and which
/// of them are fixed.
pub proof fn a_map_is_described_field_by_field(fields: Seq<Seq<char>>)
    ensures
        fields.len() < 3 ==> header_of(fields) is None,
        fields.len() >= 3 ==> (header_of(fields) is Some == unsigned(
            trim(fields[2]),
            usize::MAX as int,
        ) is Some),
        header_of(fields) matches Some((id, map)) ==> {
            &&& id == fields[0] + seq!['|'] + fields[1]
            &&& unsigned(trim(fields[2]), usize::MAX as int) == Some(map.keys)
            &&& fields.len() == 3 ==> map.fixed.len() == 0
            &&& fields.len() > 3 ==> map.fixed == fixed_of(split(fields[3], ','))
            &&& map.pieces.len() == 0
        },
{
}

} // verus!
