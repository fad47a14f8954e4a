//! What the reader of a walk makes of the walk's own echo.

use vstd::prelude::*;

use crate::features::global_browser::{
    answer, bare_name, csi_end, echoed, escape_end, holds_a_tag, in_reference, no_data,
    ordinary_text_is_left_alone, osc_end, plain, plain_from, walked, Query, Walk, SCRIPT_OPENING,
    TAG_END, TAG_ERROR, TAG_NODE, TAG_PIECE,
};
use crate::objectscript::doubled;
use crate::text::{
    a_line_is_one_piece, digits, found_at, occurs, split, split_at_a_line_feed, trim_end,
    trim_start, white_space,
};

verus! {

/// A text on one line.
pub open spec fn on_one_line(s: Seq<char>) -> bool {
    forall|i: int| 0 <= i < s.len() ==> #[trigger] s[i] != '\n'
}

/// A text on one line, of which stripping takes nothing.
pub open spec fn ordinary(s: Seq<char>) -> bool {
    forall|i: int|
        0 <= i < s.len() ==> #[trigger] s[i] != '\n' && s[i] != '\u{1b}' && !no_data(s[i])
}

/// Whether the CSI sequence whose parameters go on at `i` has an end.
pub open spec fn csi_closes(s: Seq<char>, i: int) -> bool
    decreases s.len() - i,
{
    0 <= i < s.len() && (0x40 <= s[i] as u32 <= 0x7e || csi_closes(s, i + 1))
}

/// Whether the operating system command that goes on at `i` has an end.
pub open spec fn osc_closes(s: Seq<char>, i: int) -> bool
    decreases s.len() - i,
{
    0 <= i < s.len() && (s[i] == '\u{7}' || (s[i] == '\u{1b}' && i + 1 < s.len() && s[i + 1]
        == '\\') || osc_closes(s, i + 1))
}

/// Whether the escape sequence that starts at `i` has an end.
pub open spec fn closes(s: Seq<char>, i: int) -> bool {
    &&& i + 1 < s.len()
    &&& s[i + 1] == '[' ==> csi_closes(s, i + 2)
    &&& s[i + 1] == ']' ==> osc_closes(s, i + 2)
    &&& s[i + 1] == '(' || s[i + 1] == ')' || s[i + 1] == '#' ==> i + 2 < s.len()
}

/// Whether no escape sequence is left open, of those that are read from `i` on.
pub open spec fn complete_from(s: Seq<char>, i: int) -> bool
    decreases s.len() - i,
{
    if i < 0 || i >= s.len() {
        true
    } else if s[i] == '\u{1b}' {
        let next = escape_end(s, i);
        closes(s, i) && (i < next <= s.len() ==> complete_from(s, next))
    } else {
        complete_from(s, i + 1)
    }
}

/// Whether a text leaves no escape sequence open.
pub open spec fn complete(s: Seq<char>) -> bool {
    complete_from(s, 0)
}

// ---- stripping ----------------------------------------------------------

proof fn ends_move_along(a: Seq<char>, b: Seq<char>, j: int)
    requires
        0 <= j,
    ensures
        csi_end(a + b, a.len() + j) == a.len() + csi_end(b, j),
        osc_end(a + b, a.len() + j) == a.len() + osc_end(b, j),
    decreases b.len() - j,
{
    if j < b.len() {
        assert((a + b)[a.len() + j] == b[j]);
        if j + 1 < b.len() {
            assert((a + b)[a.len() + j + 1] == b[j + 1]);
        }
        ends_move_along(a, b, j + 1);
    }
}

proof fn an_escape_ends_further_on(s: Seq<char>, i: int)
    requires
        0 <= i < s.len(),
    ensures
        i < escape_end(s, i) <= s.len(),
{
    if i + 1 < s.len() {
        scanning_goes_on(s, i + 2);
    }
}

proof fn scanning_goes_on(s: Seq<char>, i: int)
    requires
        0 <= i <= s.len(),
    ensures
        i <= csi_end(s, i) <= s.len(),
        i <= osc_end(s, i) <= s.len(),
    decreases s.len() - i,
{
    if i < s.len() {
        scanning_goes_on(s, i + 1);
    }
}

/// What stands before a text has no part in stripping it.
pub proof fn stripping_moves_along(a: Seq<char>, b: Seq<char>, j: int)
    requires
        0 <= j,
    ensures
        plain_from(a + b, a.len() + j) == plain_from(b, j),
    decreases b.len() - j,
{
    let n = a.len() as int;
    if j < b.len() {
        assert((a + b)[n + j] == b[j]);
        if b[j] == '\u{1b}' {
            if j + 1 < b.len() {
                assert((a + b)[n + j + 1] == b[j + 1]);
                ends_move_along(a, b, j + 2);
            }
            assert(escape_end(a + b, n + j) == n + escape_end(b, j));
            an_escape_ends_further_on(b, j);
            stripping_moves_along(a, b, escape_end(b, j));
        } else {
            stripping_moves_along(a, b, j + 1);
        }
    }
}

proof fn closed_ends_stay(a: Seq<char>, b: Seq<char>, i: int)
    requires
        0 <= i,
    ensures
        csi_closes(a, i) ==> csi_end(a + b, i) == csi_end(a, i),
        osc_closes(a, i) ==> osc_end(a + b, i) == osc_end(a, i),
    decreases a.len() - i,
{
    if i < a.len() {
        assert((a + b)[i] == a[i]);
        if i + 1 < a.len() {
            assert((a + b)[i + 1] == a[i + 1]);
        }
        closed_ends_stay(a, b, i + 1);
        assert(i + 1 >= a.len() ==> !osc_closes(a, i + 1));
    }
}

proof fn stripping_from(a: Seq<char>, b: Seq<char>, i: int)
    requires
        0 <= i <= a.len(),
        complete_from(a, i),
    ensures
        plain_from(a + b, i) == plain_from(a, i) + plain_from(b, 0),
    decreases a.len() - i,
{
    if i == a.len() {
        stripping_moves_along(a, b, 0);
        assert(plain_from(a, i) + plain_from(b, 0) =~= plain_from(b, 0));
    } else {
        assert((a + b)[i] == a[i]);
        if a[i] == '\u{1b}' {
            assert((a + b)[i + 1] == a[i + 1]);
            closed_ends_stay(a, b, i + 2);
            an_escape_ends_further_on(a, i);
            stripping_from(a, b, escape_end(a, i));
        } else {
            stripping_from(a, b, i + 1);
            assert(plain_from(a + b, i) =~= plain_from(a, i) + plain_from(b, 0));
        }
    }
}

/// A text that leaves no escape sequence open is stripped apart from what
/// follows it.
pub proof fn stripping_goes_piece_by_piece(a: Seq<char>, b: Seq<char>)
    requires
        complete(a),
    ensures
        plain(a + b) == plain(a) + plain(b),
{
    stripping_from(a, b, 0);
}

proof fn ordinary_text_is_complete(s: Seq<char>, i: int)
    requires
        ordinary(s),
        0 <= i,
    ensures
        complete_from(s, i),
    decreases s.len() - i,
{
    if i < s.len() {
        assert(s[i] != '\n');
        ordinary_text_is_complete(s, i + 1);
    }
}

/// An ordinary text comes through in front of anything.
proof fn ordinary_text_goes_first(a: Seq<char>, b: Seq<char>)
    requires
        ordinary(a),
    ensures
        plain(a) == a,
        plain(a + b) == a + plain(b),
{
    assert forall|k: int| 0 <= k < a.len() implies #[trigger] a[k] != '\u{1b}' && !no_data(a[k]) by {
        assert(a[k] != '\n');
    }
    ordinary_text_is_left_alone(a, 0);
    assert(a.skip(0) =~= a);
    ordinary_text_is_complete(a, 0);
    stripping_goes_piece_by_piece(a, b);
}

proof fn stripping_adds_no_line(s: Seq<char>, i: int)
    requires
        0 <= i,
        on_one_line(s),
    ensures
        !plain_from(s, i).contains('\n'),
    decreases s.len() - i,
{
    if i < s.len() {
        let all = plain_from(s, i);
        if s[i] == '\u{1b}' {
            an_escape_ends_further_on(s, i);
            stripping_adds_no_line(s, escape_end(s, i));
        } else {
            stripping_adds_no_line(s, i + 1);
            let rest = plain_from(s, i + 1);
            if !no_data(s[i]) && all.contains('\n') {
                let k = choose|k: int| 0 <= k < all.len() && all[k] == '\n';
                assert(all == seq![s[i]] + rest);
                assert(k > 0 && rest[k - 1] == '\n');
            }
        }
    }
}

// ---- the script ---------------------------------------------------------

proof fn doubling_stays_on_the_line(s: Seq<char>)
    requires
        on_one_line(s),
    ensures
        on_one_line(doubled(s)),
    decreases s.len(),
{
    if s.len() > 0 {
        assert forall|i: int| 0 <= i < s.drop_last().len() implies #[trigger] s.drop_last()[i]
            != '\n' by {
            assert(s[i] != '\n');
        }
        doubling_stays_on_the_line(s.drop_last());
        assert(s[s.len() - 1] != '\n');
    }
}

proof fn digits_stay_on_the_line(n: nat)
    ensures
        on_one_line(digits(n)),
    decreases n,
{
    if n >= 10 {
        digits_stay_on_the_line(n / 10);
    }
}

proof fn a_trimmed_line_is_on_the_line(s: Seq<char>)
    requires
        on_one_line(s),
    ensures
        on_one_line(trim_end(s)),
        on_one_line(trim_start(s)),
    decreases s.len(),
{
    if s.len() > 0 {
        assert forall|i: int| 0 <= i < s.len() - 1 implies #[trigger] s.drop_last()[i] != '\n' by {
            assert(s[i] != '\n');
        }
        assert forall|i: int| 0 <= i < s.len() - 1 implies #[trigger] s.skip(1)[i] != '\n' by {
            assert(s[i + 1] != '\n');
        }
        a_trimmed_line_is_on_the_line(s.drop_last());
        a_trimmed_line_is_on_the_line(s.skip(1));
    }
}

/// What stands behind the script's beginning.
spec fn remainder(query: Query) -> Seq<char> {
    query.script().skip(SCRIPT_OPENING@.len() as int)
}

proof fn the_script_in_parts(query: Query)
    ensures
        query.script() == SCRIPT_OPENING@ + remainder(query),
        ordinary(SCRIPT_OPENING@),
        SCRIPT_OPENING@.len() > 0,
        !white_space(SCRIPT_OPENING@.last()),
{
    reveal_strlit("Try { Set nitC=0,nitQ=");
    assert(query.script().take(SCRIPT_OPENING@.len() as int) =~= SCRIPT_OPENING@);
    assert(query.script() =~= SCRIPT_OPENING@ + remainder(query));
}

proof fn the_script_is_on_the_line(query: Query)
    requires
        query.runnable(),
        on_one_line(query.start@),
        on_one_line(query.delimiter@),
    ensures
        on_one_line(query.script()),
{
    reveal_strlit("Try { Set nitC=0,nitQ=");
    reveal_strlit(
        " For { Set nitQ=$Query(@nitQ) Quit:nitQ=\"\"  Set nitC=nitC+1,nitV=$Get(@nitQ) ",
    );
    reveal_strlit("Write \"@N@\",nitQ,! For nitI=1:1:$Length(nitV,");
    reveal_strlit(") { Write \"@P@\",nitI,\"@\",$Piece(nitV,");
    reveal_strlit(",nitI),! } Quit:nitC>=");
    reveal_strlit("  } Write \"@E@\",nitC,! } Catch nitE { Write \"@X@\",nitE.DisplayString(),! }");
    reveal_strlit("^");
    a_trimmed_line_is_on_the_line(query.start@);
    a_trimmed_line_is_on_the_line(trim_end(query.start@));
    let name = bare_name(query.global@);
    assert(on_one_line(name)) by {
        assert forall|i: int| 0 <= i < name.len() implies #[trigger] name[i] != '\n' by {
            assert(in_reference(name[i]));
        }
    }
    assert(on_one_line(seq!['^'] + name));
    doubling_stays_on_the_line(query.from());
    doubling_stays_on_the_line(query.separator());
    digits_stay_on_the_line(query.most());
}

// ---- reading the echo ---------------------------------------------------

proof fn a_text_is_found(s: Seq<char>, pat: Seq<char>, from: int, at: int)
    requires
        0 <= from <= at,
        at + pat.len() <= s.len(),
        s.subrange(at, at + pat.len()) == pat,
    ensures
        found_at(s, pat, from) is Some,
        from <= found_at(s, pat, from)->0 <= at,
    decreases at - from,
{
    if s.subrange(from, from + pat.len()) != pat {
        a_text_is_found(s, pat, from + 1, at);
    }
}

proof fn what_is_not_there_is_in_no_part(s: Seq<char>, n: int, pat: Seq<char>)
    requires
        0 <= n <= s.len(),
        !occurs(s, pat),
    ensures
        !occurs(s.take(n), pat),
{
    if occurs(s.take(n), pat) {
        let i = choose|i: int|
            0 <= i && i + pat.len() <= s.take(n).len() && #[trigger] s.take(n).subrange(
                i,
                i + pat.len(),
            ) == pat;
        assert(s.subrange(i, i + pat.len()) =~= s.take(n).subrange(i, i + pat.len()));
    }
}

/// A script behind anything that holds no tag is an echo.
proof fn a_script_is_an_echo(shown: Seq<char>, rest: Seq<char>)
    requires
        !holds_a_tag(shown),
    ensures
        echoed(shown + (SCRIPT_OPENING@ + rest)),
{
    let line = shown + (SCRIPT_OPENING@ + rest);
    let n = shown.len() as int;
    assert(line.subrange(n, n + SCRIPT_OPENING@.len()) =~= SCRIPT_OPENING@);
    a_text_is_found(line, SCRIPT_OPENING@, 0, n);
    let at = found_at(line, SCRIPT_OPENING@, 0)->0;
    assert(line.take(at) =~= shown.take(at));
    what_is_not_there_is_in_no_part(shown, at, TAG_ERROR@);
    what_is_not_there_is_in_no_part(shown, at, TAG_END@);
    what_is_not_there_is_in_no_part(shown, at, TAG_NODE@);
    what_is_not_there_is_in_no_part(shown, at, TAG_PIECE@);
}

/// White space comes off the end of a line without reaching something solid in
/// it.
proof fn trimming_stops_at(head: Seq<char>, tail: Seq<char>) -> (n: int)
    requires
        head.len() > 0,
        !white_space(head.last()),
    ensures
        0 <= n <= tail.len(),
        trim_end(head + tail) == head + tail.take(n),
    decreases tail.len(),
{
    let all = head + tail;
    if tail.len() == 0 {
        assert(all =~= head);
        assert(head + tail.take(0) =~= head);
        0
    } else if white_space(tail.last()) {
        assert(all.drop_last() =~= head + tail.drop_last());
        let n = trimming_stops_at(head, tail.drop_last());
        assert(tail.drop_last().take(n) =~= tail.take(n));
        n
    } else {
        assert(tail.take(tail.len() as int) =~= tail);
        tail.len() as int
    }
}

/// The line of an echo tells nothing, whatever white space ends it.
proof fn an_echo_tells_nothing(walk: Walk, shown: Seq<char>, rest: Seq<char>)
    requires
        !holds_a_tag(shown),
        SCRIPT_OPENING@.len() > 0,
        !white_space(SCRIPT_OPENING@.last()),
    ensures
        walk.line(shown + (SCRIPT_OPENING@ + rest)) == walk,
{
    let head = shown + SCRIPT_OPENING@;
    assert(shown + (SCRIPT_OPENING@ + rest) =~= head + rest);
    assert(head.last() == SCRIPT_OPENING@.last());
    let n = trimming_stops_at(head, rest);
    assert(head + rest.take(n) =~= shown + (SCRIPT_OPENING@ + rest.take(n)));
    a_script_is_an_echo(shown, rest.take(n));
}

proof fn a_first_line_that_tells_nothing(line: Seq<char>, lines: Seq<Seq<char>>)
    requires
        Walk::start().line(line) == Walk::start(),
    ensures
        walked(seq![line] + lines) == walked(lines),
    decreases lines.len(),
{
    let all = seq![line] + lines;
    if lines.len() == 0 {
        assert(all.drop_last() =~= Seq::empty());
        reveal_with_fuel(walked, 2);
    } else {
        assert(all.drop_last() =~= seq![line] + lines.drop_last());
        a_first_line_that_tells_nothing(line, lines.drop_last());
    }
}

/// The echo of the command, on the line of a prompt, changes nothing of what is
/// read from the output behind it. An escape sequence that the query leaves open
/// would reach into the output, and is the one thing that must not stand in it.
pub proof fn an_echoed_script_is_ignored(
    query: Query,
    shown: Seq<char>,
    feed: Seq<char>,
    output: Seq<char>,
)
    requires
        query.runnable(),
        on_one_line(query.start@),
        on_one_line(query.delimiter@),
        complete(query.script()),
        ordinary(shown),
        !holds_a_tag(shown),
        feed == seq!['\n'] || feed == seq!['\r', '\n'],
    ensures
        answer(shown + query.script() + feed + output) == answer(output),
{
    let script = query.script();
    let opening = SCRIPT_OPENING@;
    the_script_in_parts(query);
    the_script_is_on_the_line(query);
    let left = plain(remainder(query));
    let rest = plain(output);
    let tail = script + (feed + output);
    // The line feed parts the echo from the output.
    ordinary_text_goes_first(opening, remainder(query));
    stripping_goes_piece_by_piece(script, feed + output);
    ordinary_text_goes_first(shown, tail);
    the_feed_comes_through(feed, output);
    assert(shown + script + feed + output =~= shown + tail);
    let cr = feed.drop_last();
    let raw = shown + (opening + (left + cr));
    assert(feed =~= cr + seq!['\n']);
    assert(plain(shown + tail) =~= raw.push('\n') + rest);
    assert(!raw.contains('\n')) by {
        stripping_adds_no_line(script, 0);
        if raw.contains('\n') {
            let k = choose|k: int| 0 <= k < raw.len() && raw[k] == '\n';
            let n = shown.len() as int;
            if k < n {
                assert(shown[k] == '\n');
            } else if k < n + plain(script).len() {
                assert(plain(script)[k - n] == '\n');
            }
        }
    }
    a_line_is_one_piece(raw);
    split_at_a_line_feed(raw, rest);
    an_echo_tells_nothing(Walk::start(), shown, left + cr);
    a_first_line_that_tells_nothing(raw, split(rest, '\n'));
}

proof fn the_feed_comes_through(feed: Seq<char>, output: Seq<char>)
    requires
        feed == seq!['\n'] || feed == seq!['\r', '\n'],
    ensures
        plain(feed + output) == feed + plain(output),
{
    ordinary_text_is_left_alone(feed, 0);
    assert(feed.skip(0) =~= feed);
    reveal_with_fuel(complete_from, 3);
    stripping_goes_piece_by_piece(feed, output);
}

} // verus!
