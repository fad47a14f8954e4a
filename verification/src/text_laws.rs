//! What the text functions come to: letters, white space, pieces and numbers.

use vstd::prelude::*;

use crate::number::{grouped, padded, signed, unsigned, value, what_is_written_is_read};
use crate::objectscript::{doubled, literal, typed};
use crate::text::{
    after, ascii_alnum, ascii_alpha, ascii_digit, behind, cut_once, digits, first_at, found_at,
    joined, last_line, lower_char, occurs, replaced, split, split_has_pieces, trim, trim_end,
    trim_start, white_space,
};

verus! {

// ---- characters ---------------------------------------------------------

/// The letters are the twenty-six in either case, the digits are ten, and only a
/// capital has another letter for its lower case, thirty-two further on.
pub proof fn letters_and_digits(c: char)
    ensures
        ascii_digit(c) == (48 <= c as u32 <= 57),
        ascii_alpha(c) == (65 <= c as u32 <= 90 || 97 <= c as u32 <= 122),
        ascii_alnum(c) == (ascii_alpha(c) || ascii_digit(c)),
        65 <= c as u32 <= 90 ==> lower_char(c) as u32 == c as u32 + 32,
        !(65 <= c as u32 <= 90) ==> lower_char(c) == c,
{
}

/// White space is the blank, the controls from tab to carriage return, and the
/// spaces of Unicode.
pub proof fn the_white_space(c: char)
    ensures
        c as u32 <= 0x7f ==> white_space(c) == (c == ' ' || 9 <= c as u32 <= 13),
        0x80 <= c as u32 <= 0xff ==> white_space(c) == (c as u32 == 0x85 || c as u32 == 0xa0),
        c as u32 > 0xff ==> white_space(c) == (c as u32 == 0x1680 || 0x2000 <= c as u32 <= 0x200a
            || c as u32 == 0x2028 || c as u32 == 0x2029 || c as u32 == 0x202f || c as u32 == 0x205f
            || c as u32 == 0x3000),
{
}

// ---- trimming -----------------------------------------------------------

pub open spec fn all_white(s: Seq<char>) -> bool {
    forall|i: int| 0 <= i < s.len() ==> white_space(#[trigger] s[i])
}

/// A text that neither begins nor ends with white space.
pub open spec fn solid(s: Seq<char>) -> bool {
    s.len() > 0 && !white_space(s[0]) && !white_space(s.last())
}

/// White space around a text that neither begins nor ends with any is what
/// trimming takes off, and nothing else.
pub proof fn trimming_takes_off_what_is_around(before: Seq<char>, s: Seq<char>, behind: Seq<char>)
    requires
        all_white(before),
        all_white(behind),
        solid(s),
    ensures
        trim(before + s + behind) == s,
        trim_end(before + s + behind) == before + s,
        trim_start(before + s + behind) == s + behind,
        trim(before) == Seq::<char>::empty(),
{
    the_end_comes_off(before + s, behind);
    the_start_comes_off(before, s);
    the_start_comes_off(before, s + behind);
    assert(before + s + behind =~= before + (s + behind));
    nothing_but_white(before);
}

proof fn the_end_comes_off(s: Seq<char>, behind: Seq<char>)
    requires
        s.len() > 0,
        !white_space(s.last()),
        all_white(behind),
    ensures
        trim_end(s + behind) == s,
    decreases behind.len(),
{
    let all = s + behind;
    if behind.len() == 0 {
        assert(all =~= s);
    } else {
        assert(all.last() == behind[behind.len() - 1]);
        assert(all.drop_last() =~= s + behind.drop_last());
        assert forall|i: int| 0 <= i < behind.drop_last().len() implies white_space(
            #[trigger] behind.drop_last()[i],
        ) by {
            assert(white_space(behind[i]));
        }
        the_end_comes_off(s, behind.drop_last());
    }
}

proof fn the_start_comes_off(before: Seq<char>, s: Seq<char>)
    requires
        s.len() > 0,
        !white_space(s[0]),
        all_white(before),
    ensures
        trim_start(before + s) == s,
    decreases before.len(),
{
    let all = before + s;
    if before.len() == 0 {
        assert(all =~= s);
    } else {
        assert(all[0] == before[0]);
        assert(all.skip(1) =~= before.skip(1) + s);
        assert forall|i: int| 0 <= i < before.skip(1).len() implies white_space(
            #[trigger] before.skip(1)[i],
        ) by {
            assert(white_space(before[i + 1]));
        }
        the_start_comes_off(before.skip(1), s);
    }
}

proof fn nothing_but_white(s: Seq<char>)
    requires
        all_white(s),
    ensures
        trim(s) == Seq::<char>::empty(),
    decreases s.len(),
{
    if s.len() > 0 {
        assert(white_space(s[s.len() - 1]));
        assert forall|i: int| 0 <= i < s.drop_last().len() implies white_space(
            #[trigger] s.drop_last()[i],
        ) by {
            assert(white_space(s[i]));
        }
        nothing_but_white(s.drop_last());
        assert(trim_end(s) == trim_end(s.drop_last()));
    } else {
        assert(s =~= Seq::empty());
    }
}

// ---- pieces -------------------------------------------------------------

/// Pieces with a separator between each two.
pub open spec fn rejoined(pieces: Seq<Seq<char>>, sep: char) -> Seq<char>
    decreases pieces.len(),
{
    if pieces.len() == 0 {
        Seq::empty()
    } else if pieces.len() == 1 {
        pieces[0]
    } else {
        rejoined(pieces.drop_last(), sep) + seq![sep] + pieces.last()
    }
}

/// The pieces of a text hold no separator, and with one between each two they are
/// the text again.
pub proof fn pieces_make_the_text(s: Seq<char>, sep: char)
    ensures
        rejoined(split(s, sep), sep) == s,
        forall|i: int| 0 <= i < split(s, sep).len() ==> !(#[trigger] split(s, sep)[i]).contains(sep),
        split(s, sep).len() > 0,
    decreases s.len(),
{
    let pieces = split(s, sep);
    if s.len() == 0 {
        assert(pieces =~= seq![Seq::<char>::empty()]);
        assert(s =~= Seq::empty());
    } else {
        let before = split(s.drop_last(), sep);
        pieces_make_the_text(s.drop_last(), sep);
        assert(s.drop_last().push(s.last()) =~= s);
        if s.last() == sep {
            assert(pieces.drop_last() =~= before);
            assert(rejoined(pieces, sep) =~= s);
        } else {
            let n = before.len() - 1;
            assert(pieces.drop_last() =~= before.drop_last());
            assert(pieces.last() == before.last().push(s.last()));
            assert(rejoined(pieces, sep) =~= s) by {
                if n == 0 {
                    assert(pieces[0] == before[0].push(s.last()));
                }
            }
            assert forall|i: int| 0 <= i < pieces.len() implies !(#[trigger] pieces[i]).contains(
                sep,
            ) by {
                if i == n {
                    let p = pieces[i];
                    assert(!before[n].contains(sep));
                    if p.contains(sep) {
                        let k = choose|k: int| 0 <= k < p.len() && p[k] == sep;
                        if k < before[n].len() {
                            assert(before[n][k] == sep);
                        }
                    }
                } else {
                    assert(pieces[i] == before[i]);
                }
            }
        }
    }
}

/// A text is cut at the first separator, into what stands before it and what
/// stands behind.
pub proof fn a_cut_is_at_the_first(head: Seq<char>, tail: Seq<char>, sep: char)
    requires
        !head.contains(sep),
    ensures
        cut_once(head + seq![sep] + tail, sep) == Some((head, tail)),
        cut_once(head, sep) is None,
{
    let s = head + seq![sep] + tail;
    let n = head.len() as int;
    assert forall|i: int| 0 <= i < n implies #[trigger] s[i] != sep by {
        assert(s[i] == head[i]);
    }
    the_first_is_found(s, sep, 0, n);
    assert(s.take(n) =~= head);
    assert(s.skip(n + 1) =~= tail);
    none_is_found(head, sep, 0);
}

proof fn the_first_is_found(s: Seq<char>, sep: char, from: int, at: int)
    requires
        0 <= from <= at < s.len(),
        s[at] == sep,
        forall|i: int| 0 <= i < at ==> #[trigger] s[i] != sep,
    ensures
        first_at(s, sep, from) == Some(at),
    decreases at - from,
{
    if from < at {
        the_first_is_found(s, sep, from + 1, at);
    }
}

proof fn none_is_found(s: Seq<char>, sep: char, from: int)
    requires
        0 <= from,
        !s.contains(sep),
    ensures
        first_at(s, sep, from) is None,
    decreases s.len() - from,
{
    if from < s.len() {
        none_is_found(s, sep, from + 1);
    }
}

/// What stands behind a prefix is the rest, and there is nothing behind one that
/// a text does not begin with.
pub proof fn behind_a_prefix(prefix: Seq<char>, rest: Seq<char>, s: Seq<char>)
    ensures
        behind(prefix + rest, prefix) == Some(rest),
        behind(s, prefix) matches Some(r) ==> s == prefix + r,
{
    assert((prefix + rest).take(prefix.len() as int) =~= prefix);
    assert((prefix + rest).skip(prefix.len() as int) =~= rest);
    if behind(s, prefix) is Some {
        assert(s =~= prefix + s.skip(prefix.len() as int));
    }
}

/// What stands behind a pattern is the rest behind the first place it is found
/// at, and it is found wherever it occurs.
pub proof fn after_a_pattern(s: Seq<char>, pat: Seq<char>)
    ensures
        after(s, pat) is Some <==> occurs(s, pat),
        after(s, pat) matches Some(r) ==> {
            let at = s.len() - r.len() - pat.len();
            &&& 0 <= at
            &&& s == s.take(at) + pat + r
            &&& forall|i: int| 0 <= i < at ==> #[trigger] s.subrange(i, i + pat.len()) != pat
        },
{
    finding(s, pat, 0);
    if let Some(i) = found_at(s, pat, 0) {
        let r = s.skip(i + pat.len());
        assert(s =~= s.take(i) + pat + r) by {
            assert(s.subrange(i, i + pat.len()) == pat);
            assert forall|k: int| 0 <= k < s.len() implies s[k] == #[trigger] (s.take(i) + pat
                + r)[k] by {
                if i <= k < i + pat.len() {
                    assert(s.subrange(i, i + pat.len())[k - i] == s[k]);
                }
            }
        }
    }
}

pub(crate) proof fn finding(s: Seq<char>, pat: Seq<char>, from: int)
    requires
        0 <= from,
    ensures
        match found_at(s, pat, from) {
            Some(at) => {
                &&& from <= at
                &&& at + pat.len() <= s.len()
                &&& s.subrange(at, at + pat.len()) == pat
                &&& forall|i: int| from <= i < at ==> #[trigger] s.subrange(i, i + pat.len()) != pat
            },
            None => forall|i: int|
                from <= i && i + pat.len() <= s.len() ==> #[trigger] s.subrange(i, i + pat.len())
                    != pat,
        },
    decreases s.len() - from + 1,
{
    if from + pat.len() <= s.len() && s.subrange(from, from + pat.len()) != pat {
        finding(s, pat, from + 1);
    }
}

/// The last line is what follows the last line feed, or the line before a line
/// feed that ends the text.
pub proof fn the_last_line(head: Seq<char>, line: Seq<char>)
    requires
        line.len() > 0,
        !line.contains('\n'),
    ensures
        last_line(head + seq!['\n'] + line) == Some(line),
        last_line(line) == Some(line),
        line.last() != '\r' ==> last_line(head + seq!['\n'] + line + seq!['\n']) == Some(line),
        last_line(head + seq!['\n'] + line + seq!['\r', '\n']) == Some(line),
{
    crate::text::split_at_a_line_feed(head, line);
    crate::text::a_line_is_one_piece(line);
    split_has_pieces(head, '\n');
    assert(head.push('\n') + line =~= head + seq!['\n'] + line);
    let all = head + seq!['\n'] + line;
    let nothing = Seq::<char>::empty();
    crate::text::split_at_a_line_feed(all, nothing);
    assert(all.push('\n') + nothing =~= all + seq!['\n']);
    assert(split(nothing, '\n') =~= seq![nothing]);
    let ended = line.push('\r');
    assert forall|i: int| 0 <= i < ended.len() implies ended[i] != '\n' by {
        if i < line.len() {
            assert(line[i] == ended[i]);
        }
    }
    crate::text::a_line_is_one_piece(ended);
    crate::text::split_at_a_line_feed(head, ended);
    let more = head + seq!['\n'] + ended;
    assert(head.push('\n') + ended =~= more);
    crate::text::split_at_a_line_feed(more, nothing);
    assert(more.push('\n') + nothing =~= head + seq!['\n'] + line + seq!['\r', '\n']);
    assert(ended.drop_last() =~= line);
    let pieces = split(all, '\n') + split(nothing, '\n');
    assert(pieces[pieces.len() - 2] == line);
}

// ---- numbers ------------------------------------------------------------

/// A digit appended is worth ten times what stands before it and itself, and the
/// digits of a number are as many as they have to be.
pub proof fn a_number_is_its_digits(s: Seq<char>, d: nat, n: nat)
    requires
        d < 10,
    ensures
        value(s.push((48 + d) as char)) == 10 * value(s) + d,
        value(Seq::<char>::empty()) == 0,
        unsigned(digits(n), n as int) == Some(n as int),
        n < 10 ==> digits(n) == seq![(48 + n) as char],
        n >= 10 ==> digits(n) == digits(n / 10).push((48 + n % 10) as char),
{
    assert(s.push((48 + d) as char).drop_last() =~= s);
    what_is_written_is_read(n, n as int);
}

/// A sign in front: a plus says nothing, and a minus makes it negative.
pub proof fn a_sign_in_front(n: nat)
    requires
        n <= 0x7fff_ffff_ffff_ffff,
    ensures
        signed(digits(n)) == Some(n as int),
        signed(seq!['-'] + digits(n)) == Some(-(n as int)),
        signed(seq!['+'] + digits(n)) == Some(n as int),
        unsigned(seq!['+'] + digits(n), n as int) == Some(n as int),
        unsigned(seq!['-'] + digits(n), n as int) is None,
        unsigned(Seq::<char>::empty(), n as int) is None,
        n > 0 ==> unsigned(digits(n), n - 1) is None,
{
    what_is_written_is_read(n, n as int);
    what_is_written_is_read(n, i64::MAX as int);
    let d = digits(n);
    digits_are_digits(n);
    assert((seq!['-'] + d).skip(1) =~= d);
    assert((seq!['+'] + d).skip(1) =~= d);
    assert((seq!['-'] + d)[0] == '-');
    assert(ascii_digit(d[0]));
}

proof fn digits_are_digits(n: nat)
    ensures
        digits(n).len() > 0,
        forall|i: int| 0 <= i < digits(n).len() ==> ascii_digit(#[trigger] digits(n)[i]),
        value(digits(n)) == n,
    decreases n,
{
    if n < 10 {
        assert(digits(n).drop_last() =~= Seq::empty());
        assert(value(Seq::<char>::empty()) == 0);
    } else {
        digits_are_digits(n / 10);
        assert(digits(n).drop_last() =~= digits(n / 10));
    }
}

proof fn zeros_are_worth_nothing(k: nat, d: Seq<char>)
    ensures
        value(Seq::new(k, |i: int| '0') + d) == value(d),
    decreases d.len(),
{
    let zeros = Seq::new(k, |i: int| '0');
    if d.len() == 0 {
        assert(zeros + d =~= zeros);
        only_zeros(k);
        assert(value(d) == 0);
    } else {
        assert((zeros + d).drop_last() =~= zeros + d.drop_last());
        assert((zeros + d).last() == d.last());
        zeros_are_worth_nothing(k, d.drop_last());
    }
}

proof fn only_zeros(k: nat)
    ensures
        value(Seq::new(k, |i: int| '0')) == 0,
    decreases k,
{
    let zeros = Seq::new(k, |i: int| '0');
    if k > 0 {
        assert(zeros.drop_last() =~= Seq::new((k - 1) as nat, |i: int| '0'));
        only_zeros((k - 1) as nat);
        assert(zeros.last() == '0');
    }
}

/// A number written to a width is worth the same, is no shorter than that, and no
/// longer unless it has to be.
pub proof fn a_padded_number(n: nat, width: nat)
    ensures
        value(padded(n, width)) == n,
        padded(n, width).len() >= width,
        padded(n, width).len() == width || padded(n, width) == digits(n),
        forall|i: int| 0 <= i < padded(n, width).len() ==> ascii_digit(#[trigger] padded(n, width)[i]),
{
    let d = digits(n);
    digits_are_digits(n);
    if d.len() < width {
        zeros_are_worth_nothing((width - d.len()) as nat, d);
    }
}

/// A text without its full stops.
pub open spec fn without_stops(s: Seq<char>) -> Seq<char>
    decreases s.len(),
{
    if s.len() == 0 {
        Seq::empty()
    } else if s.last() == '.' {
        without_stops(s.drop_last())
    } else {
        without_stops(s.drop_last()).push(s.last())
    }
}

proof fn stops_come_out_in_turn(a: Seq<char>, b: Seq<char>)
    ensures
        without_stops(a + b) == without_stops(a) + without_stops(b),
    decreases b.len(),
{
    if b.len() == 0 {
        assert(a + b =~= a);
        assert(without_stops(a) + without_stops(b) =~= without_stops(a));
    } else {
        assert((a + b).drop_last() =~= a + b.drop_last());
        assert((a + b).last() == b.last());
        stops_come_out_in_turn(a, b.drop_last());
        assert(without_stops(a + b) =~= without_stops(a) + without_stops(b));
    }
}

proof fn digits_have_no_stops(d: Seq<char>)
    requires
        forall|i: int| 0 <= i < d.len() ==> ascii_digit(#[trigger] d[i]),
    ensures
        without_stops(d) == d,
    decreases d.len(),
{
    if d.len() > 0 {
        assert(ascii_digit(d[d.len() - 1]));
        assert forall|i: int| 0 <= i < d.drop_last().len() implies ascii_digit(
            #[trigger] d.drop_last()[i],
        ) by {
            assert(ascii_digit(d[i]));
        }
        digits_have_no_stops(d.drop_last());
        assert(d.drop_last().push(d.last()) =~= d);
    } else {
        assert(d =~= Seq::empty());
    }
}

proof fn the_value_of_two(a: Seq<char>, b: Seq<char>)
    requires
        b.len() == 3,
    ensures
        value(a + b) == value(a) * 1000 + value(b),
{
    let (x, y, z) = (b[0], b[1], b[2]);
    reveal_with_fuel(value, 4);
    assert((a + b).drop_last() =~= a + b.take(2));
    assert((a + b.take(2)).drop_last() =~= a + b.take(1));
    assert((a + b.take(1)).drop_last() =~= a);
    assert(b.drop_last() =~= b.take(2));
    assert(b.take(2).drop_last() =~= b.take(1));
    assert(b.take(1).drop_last() =~= Seq::empty());
    assert((a + b).last() == z && (a + b.take(2)).last() == y && (a + b.take(1)).last() == x);
    assert(b.last() == z && b.take(2).last() == y && b.take(1).last() == x);
}

/// A number in groups is worth itself without the full stops, and a full stop
/// stands before every third digit from the end and nowhere else.
pub proof fn a_grouped_number(n: nat)
    ensures
        value(without_stops(grouped(n))) == n,
        grouped(n).len() > 0,
        n >= 1000 ==> grouped(n).len() >= 5,
        forall|i: int| 0 <= i < grouped(n).len() ==> (#[trigger] grouped(n)[i] == '.' <==> (
        grouped(n).len() - i) % 4 == 0),
        forall|i: int|
            0 <= i < grouped(n).len() ==> #[trigger] grouped(n)[i] == '.' || ascii_digit(
                grouped(n)[i],
            ),
        grouped(n)[0] != '.',
    decreases n,
{
    let g = grouped(n);
    if n < 1000 {
        digits_are_digits(n);
        digits_have_no_stops(digits(n));
        few_digits(n);
    } else {
        let high = grouped(n / 1000);
        let low = padded(n % 1000, 3);
        a_grouped_number(n / 1000);
        a_padded_number(n % 1000, 3);
        few_digits(n % 1000);
        assert(low.len() == 3);
        stops_come_out_in_turn(high + seq!['.'], low);
        stops_come_out_in_turn(high, seq!['.']);
        digits_have_no_stops(low);
        assert(without_stops(seq!['.']) =~= Seq::empty()) by {
            assert(seq!['.'].drop_last() =~= Seq::empty());
            reveal_with_fuel(without_stops, 2);
        }
        assert(without_stops(high) + Seq::<char>::empty() =~= without_stops(high));
        the_value_of_two(without_stops(high), low);
        assert forall|i: int| 0 <= i < g.len() implies (#[trigger] g[i] == '.' <==> (g.len() - i)
            % 4 == 0) && (g[i] == '.' || ascii_digit(g[i])) by {
            let m = high.len() as int;
            if i < m {
                assert(g[i] == high[i]);
            } else if i > m {
                assert(g[i] == low[i - m - 1]);
                assert(ascii_digit(low[i - m - 1]));
            }
        }
        assert(g[0] == high[0]);
    }
}

proof fn few_digits(n: nat)
    requires
        n < 1000,
    ensures
        1 <= digits(n).len() <= 3,
{
    reveal_with_fuel(digits, 4);
}

// ---- what is typed ------------------------------------------------------

/// A literal is the text between quotes, and every quote of the text stands there
/// twice.
pub proof fn a_literal_keeps_the_text(s: Seq<char>, t: Seq<char>)
    requires
        !s.contains('"'),
    ensures
        literal(s) == seq!['"'] + s + seq!['"'],
        literal(s + seq!['"'] + t) == seq!['"'] + s + seq!['"', '"'] + doubled(t) + seq!['"'],
{
    nothing_is_doubled(s);
    doubling_in_turn(s + seq!['"'], t);
    doubling_in_turn(s, seq!['"']);
    assert(doubled(seq!['"']) =~= seq!['"', '"']) by {
        reveal_with_fuel(doubled, 2);
        assert(seq!['"'].drop_last() =~= Seq::empty());
    }
    assert(literal(s + seq!['"'] + t) =~= seq!['"'] + s + seq!['"', '"'] + doubled(t) + seq!['"']);
}

proof fn nothing_is_doubled(s: Seq<char>)
    requires
        !s.contains('"'),
    ensures
        doubled(s) == s,
    decreases s.len(),
{
    if s.len() > 0 {
        assert(s[s.len() - 1] != '"');
        assert forall|i: int| 0 <= i < s.drop_last().len() implies s.drop_last()[i] != '"' by {
            assert(s[i] != '"');
        }
        nothing_is_doubled(s.drop_last());
        assert(doubled(s) =~= s);
    } else {
        assert(s =~= Seq::empty());
    }
}

proof fn doubling_in_turn(a: Seq<char>, b: Seq<char>)
    ensures
        doubled(a + b) == doubled(a) + doubled(b),
    decreases b.len(),
{
    if b.len() == 0 {
        assert(a + b =~= a);
        assert(doubled(a) + doubled(b) =~= doubled(a));
    } else {
        doubling_in_turn(a, b.drop_last());
        assert((a + b).drop_last() =~= a + b.drop_last());
        assert(doubled(a + b) =~= doubled(a) + doubled(b));
    }
}

/// Lines are typed one after the other, each ended by a carriage return.
pub proof fn lines_are_typed_in_turn(lines: Seq<Seq<char>>, line: Seq<char>)
    ensures
        typed(lines.push(line)) == typed(lines) + line + seq!['\r'],
        typed(Seq::<Seq<char>>::empty()) == Seq::<char>::empty(),
{
    assert(lines.push(line).drop_last() =~= lines);
    assert(typed(lines.push(line)) =~= typed(lines) + line + seq!['\r']);
}

/// Lines that are joined have a line feed between each two and none at the end.
pub proof fn lines_are_joined(lines: Seq<Seq<char>>, line: Seq<char>)
    ensures
        lines.len() > 0 ==> joined(lines.push(line)) == joined(lines) + seq!['\n'] + line,
        joined(seq![line]) == line,
{
    assert(lines.push(line).drop_last() =~= lines);
}

/// A pattern that does not occur leaves a text alone, and one that stands behind
/// a text in which none begins is replaced there.
pub proof fn a_pattern_is_replaced(s: Seq<char>, pat: Seq<char>, with: Seq<char>, rest: Seq<char>)
    requires
        pat.len() > 0,
        forall|i: int| 0 <= i < s.len() ==> #[trigger] s[i] != pat[0],
    ensures
        replaced(s + pat + rest, pat, with) == s + with + replaced(rest, pat, with),
    decreases s.len(),
{
    let all = s + pat + rest;
    let n = pat.len() as int;
    if s.len() == 0 {
        assert(all.take(n) =~= pat);
        assert(all.skip(n) =~= rest);
        assert(s + with + replaced(rest, pat, with) =~= with + replaced(rest, pat, with));
    } else {
        let tail = s.skip(1);
        assert(all.skip(1) =~= tail + pat + rest);
        assert(all[0] == s[0]);
        assert(all.take(n)[0] == all[0]);
        assert forall|i: int| 0 <= i < tail.len() implies #[trigger] tail[i] != pat[0] by {
            assert(s[i + 1] != pat[0]);
        }
        a_pattern_is_replaced(tail, pat, with, rest);
        assert(replaced(all, pat, with) =~= s + with + replaced(rest, pat, with));
    }
}

} // verus!
