//! What the browser of globals sends and what it reads back, written out.

use vstd::prelude::*;

use super::global_browser::{
    answer, bare_name, between_parens, echoed, plain, plain_from, read_on, reassembled,
    subscripts_of, walked, widest, with_piece, without_carets, NodeState, Query, Reading, Walk,
    SCRIPT_OPENING, TAG_END, TAG_ERROR, TAG_NODE, TAG_PIECE,
};
use crate::number::what_is_written_is_read;
use crate::objectscript::literal;
use crate::text::{after, behind, digits, found_at, occurs, split, trim, trim_end, white_space};
use crate::text_laws::{
    a_cut_is_at_the_first, after_a_pattern, solid, trimming_takes_off_what_is_around,
};

verus! {

// ---- subscripts ---------------------------------------------------------

/// A subscript on its own: a number or a name, or a text in quotes, which may
/// hold commas and brackets.
pub open spec fn is_subscript(s: Seq<char>) -> bool {
    ||| solid(s) && !s.contains('"') && !s.contains(',')
    ||| s.len() >= 2 && s[0] == '"' && s.last() == '"' && forall|i: int|
        0 < i < s.len() - 1 ==> #[trigger] s[i] != '"'
}

proof fn reading_plain(s: Seq<char>, i: int, end: int, r: Reading)
    requires
        0 <= i <= end <= s.len(),
        !r.in_quotes,
        forall|k: int| i <= k < end ==> #[trigger] s[k] != '"' && s[k] != ',',
    ensures
        read_on(s, i, r) == read_on(
            s,
            end,
            Reading { current: r.current + s.subrange(i, end), ..r },
        ),
    decreases end - i,
{
    if i < end {
        assert(s[i] != '"');
        reading_plain(s, i + 1, end, r.add(s[i]));
        assert(r.current.push(s[i]) + s.subrange(i + 1, end) =~= r.current + s.subrange(i, end));
    } else {
        assert(r.current + s.subrange(i, end) =~= r.current);
    }
}

proof fn reading_quoted(s: Seq<char>, i: int, end: int, r: Reading)
    requires
        0 <= i <= end <= s.len(),
        r.in_quotes,
        forall|k: int| i <= k < end ==> #[trigger] s[k] != '"',
    ensures
        read_on(s, i, r) == read_on(
            s,
            end,
            Reading { current: r.current + s.subrange(i, end), ..r },
        ),
    decreases end - i,
{
    if i < end {
        assert(s[i] != '"');
        reading_quoted(s, i + 1, end, r.add(s[i]));
        assert(r.current.push(s[i]) + s.subrange(i + 1, end) =~= r.current + s.subrange(i, end));
    } else {
        assert(r.current + s.subrange(i, end) =~= r.current);
    }
}

proof fn reading_one(s: Seq<char>, i: int, item: Seq<char>, r: Reading)
    requires
        is_subscript(item),
        0 <= i,
        i + item.len() <= s.len(),
        s.subrange(i, i + item.len()) == item,
        i + item.len() < s.len() ==> s[i + item.len()] == ',',
        !r.in_quotes,
        r.current.len() == 0,
    ensures
        read_on(s, i, r) == read_on(s, i + item.len(), Reading { current: item, ..r }),
        trim(item) == item,
{
    let end = i + item.len();
    let nothing = Seq::<char>::empty();
    assert(forall|k: int| 0 <= k < item.len() ==> item[k] == s[i + k]);
    if solid(item) && !item.contains('"') && !item.contains(',') {
        assert forall|k: int| i <= k < end implies #[trigger] s[k] != '"' && s[k] != ',' by {
            assert(item[k - i] == s[k]);
        }
        reading_plain(s, i, end, r);
        assert(r.current + s.subrange(i, end) =~= item);
    } else {
        let open = Reading { in_quotes: true, ..r }.add('"');
        assert(s[i] == '"');
        assert forall|k: int| i + 1 <= k < end - 1 implies #[trigger] s[k] != '"' by {
            assert(item[k - i] == s[k]);
        }
        reading_quoted(s, i + 1, end - 1, open);
        assert(s[end - 1] == '"');
        let mid = Reading { current: open.current + s.subrange(i + 1, end - 1), ..open };
        assert(read_on(s, end - 1, mid) == read_on(
            s,
            end,
            Reading { in_quotes: false, ..mid }.add('"'),
        ));
        assert(mid.current.push('"') =~= item);
        assert(solid(item));
    }
    trimming_takes_off_what_is_around(nothing, item, nothing);
    assert(nothing + item + nothing =~= item);
}

proof fn reading_the_rest(s: Seq<char>, i: int, items: Seq<Seq<char>>, done: Seq<Seq<char>>)
    requires
        items.len() > 0,
        0 <= i <= s.len(),
        forall|k: int| 0 <= k < items.len() ==> is_subscript(#[trigger] items[k]),
        s.skip(i) == listing(items),
    ensures
        read_on(
            s,
            i,
            Reading { done, current: Seq::empty(), in_quotes: false },
        ).finish() == done + items,
    decreases items.len(),
{
    let item = items[0];
    let r = Reading { done, current: Seq::empty(), in_quotes: false };
    let end = i + item.len();
    assert(is_subscript(items[0]));
    if items.len() == 1 {
        assert(s.skip(i) =~= item);
        assert(s.len() == end);
        assert(s.subrange(i, end) =~= item);
        reading_one(s, i, item, r);
        assert(done.push(item) =~= done + items);
    } else {
        let rest = items.skip(1);
        assert(s.skip(i) == item + seq![','] + listing(rest));
        assert(s.skip(i).take(item.len() as int) =~= item);
        assert(s.subrange(i, end) =~= s.skip(i).take(item.len() as int));
        assert(s[end] == s.skip(i)[item.len() as int]);
        reading_one(s, i, item, r);
        let next = Reading { current: item, ..r }.next();
        assert(read_on(s, end, Reading { current: item, ..r }) == read_on(s, end + 1, next));
        assert(s.skip(end + 1) =~= s.skip(i).skip(item.len() + 1int));
        assert(s.skip(i).skip(item.len() + 1int) =~= listing(rest));
        assert forall|k: int| 0 <= k < rest.len() implies is_subscript(#[trigger] rest[k]) by {
            assert(is_subscript(items[k + 1]));
        }
        reading_the_rest(s, end + 1, rest, done.push(item));
        assert(next =~= Reading {
            done: done.push(item),
            current: Seq::empty(),
            in_quotes: false,
        });
        assert(done.push(item) + rest =~= done + items);
    }
}

/// Subscripts with a comma between each two.
pub open spec fn listing(items: Seq<Seq<char>>) -> Seq<char>
    decreases items.len(),
{
    if items.len() == 0 {
        Seq::empty()
    } else if items.len() == 1 {
        items[0]
    } else {
        items[0] + seq![','] + listing(items.skip(1))
    }
}

/// The subscripts of a reference are what stands between its brackets, one for
/// each comma that is in no quotes, in order.
pub proof fn subscripts_are_read_in_order(name: Seq<char>, items: Seq<Seq<char>>)
    requires
        items.len() > 0,
        !name.contains('('),
        forall|k: int| 0 <= k < items.len() ==> is_subscript(#[trigger] items[k]),
    ensures
        subscripts_of(name + seq!['('] + listing(items) + seq![')']) == items,
        subscripts_of(name) == Seq::<Seq<char>>::empty(),
{
    let inner = listing(items) + seq![')'];
    a_cut_is_at_the_first(name, inner, '(');
    assert(name + seq!['('] + inner =~= name + seq!['('] + listing(items) + seq![')']);
    assert(inner.drop_last() =~= listing(items));
    assert(listing(items).skip(0) =~= listing(items));
    reading_the_rest(listing(items), 0, items, Seq::empty());
    assert(Seq::<Seq<char>>::empty() + items =~= items);
}

// ---- what is read -------------------------------------------------------

proof fn the_tags()
    ensures
        TAG_NODE@ == seq!['@', 'N', '@'],
        TAG_PIECE@ == seq!['@', 'P', '@'],
        TAG_END@ == seq!['@', 'E', '@'],
        TAG_ERROR@ == seq!['@', 'X', '@'],
{
    reveal_strlit("@N@");
    reveal_strlit("@P@");
    reveal_strlit("@E@");
    reveal_strlit("@X@");
    assert(TAG_NODE@ =~= seq!['@', 'N', '@']);
    assert(TAG_PIECE@ =~= seq!['@', 'P', '@']);
    assert(TAG_END@ =~= seq!['@', 'E', '@']);
    assert(TAG_ERROR@ =~= seq!['@', 'X', '@']);
}

proof fn a_tagged_line(tag: char, text: Seq<char>)
    requires
        tag == 'N' || tag == 'P' || tag == 'E' || tag == 'X',
        text.len() > 0 ==> !white_space(text.last()),
    ensures
        ({
            let line = seq!['@', tag, '@'] + text;
            &&& trim_end(line) == line
            &&& behind(line, TAG_NODE@) == if tag == 'N' { Some(text) } else { None }
            &&& behind(line, TAG_PIECE@) == if tag == 'P' { Some(text) } else { None }
            &&& behind(line, TAG_END@) == if tag == 'E' { Some(text) } else { None }
            &&& tag == 'X' ==> after(line, TAG_ERROR@) == Some(text)
            &&& !echoed(line)
        }),
{
    the_tags();
    let line = seq!['@', tag, '@'] + text;
    assert(line.last() == if text.len() > 0 { text.last() } else { '@' });
    assert(line.take(3) =~= seq!['@', tag, '@']);
    assert(line.skip(3) =~= text);
    assert(line.take(3)[1] == tag);
    assert(line.subrange(0, 3) =~= line.take(3));
    if found_at(line, SCRIPT_OPENING@, 0) is Some {
        reveal_strlit("Try { Set nitC=0,nitQ=");
        crate::text_laws::after_a_pattern(line, SCRIPT_OPENING@);
        let at = found_at(line, SCRIPT_OPENING@, 0)->0;
        the_opening_is_behind(line, 0);
        assert(at >= 3);
        assert(line.take(at).subrange(0, 3) =~= line.subrange(0, 3));
        assert(occurs(line.take(at), seq!['@', tag, '@']));
    }
}

proof fn the_opening_is_behind(line: Seq<char>, from: int)
    requires
        line.len() >= 3,
        line[0] == '@',
        line[2] == '@',
        line[1] == 'N' || line[1] == 'P' || line[1] == 'E' || line[1] == 'X',
        0 <= from,
        found_at(line, SCRIPT_OPENING@, from) is Some,
    ensures
        found_at(line, SCRIPT_OPENING@, from)->0 >= 3,
        found_at(line, SCRIPT_OPENING@, from)->0 <= line.len(),
    decreases line.len() - from + 1,
{
    reveal_strlit("Try { Set nitC=0,nitQ=");
    let pat = SCRIPT_OPENING@;
    if line.subrange(from, from + pat.len()) == pat {
        assert(line.subrange(from, from + pat.len())[0] == line[from]);
        assert(pat[0] == 'T');
    } else {
        the_opening_is_behind(line, from + 1);
    }
}

/// A line that names a node begins one, with its reference and its subscripts
/// and no pieces yet; the node before it is complete.
pub proof fn a_node_is_read(walk: Walk, reference: Seq<char>)
    requires
        solid(reference),
        !occurs(seq!['@', 'N', '@'] + reference, seq!['@', 'X', '@']),
    ensures
        ({
            let after = walk.line(seq!['@', 'N', '@'] + reference);
            &&& after.current == Some(
                NodeState {
                    reference,
                    subscripts: subscripts_of(reference),
                    pieces: Seq::empty(),
                },
            )
            &&& after.nodes == match walk.current {
                Some(node) => walk.nodes.push(node),
                None => walk.nodes,
            }
            &&& after.error == walk.error && after.reported == walk.reported
        }),
{
    the_tags();
    a_tagged_line('N', reference);
    after_a_pattern(seq!['@', 'N', '@'] + reference, TAG_ERROR@);
    let nothing = Seq::<char>::empty();
    trimming_takes_off_what_is_around(nothing, reference, nothing);
    assert(nothing + reference + nothing =~= reference);
}

/// A line that gives the next piece of a node puts it behind those before it,
/// whatever the text holds but an error.
pub proof fn a_piece_is_read(walk: Walk, node: NodeState, text: Seq<char>)
    requires
        walk.current == Some(node),
        node.pieces.len() < usize::MAX,
        text.len() > 0 ==> !white_space(text.last()),
        !occurs(
            seq!['@', 'P', '@'] + (digits((node.pieces.len() + 1) as nat) + seq!['@'] + text),
            seq!['@', 'X', '@'],
        ),
    ensures
        ({
            let n = (node.pieces.len() + 1) as nat;
            let line = seq!['@', 'P', '@'] + (digits(n) + seq!['@'] + text);
            walk.line(line) == (Walk {
                current: Some(NodeState { pieces: node.pieces.push(text), ..node }),
                ..walk
            })
        }),
{
    the_tags();
    let n = (node.pieces.len() + 1) as nat;
    let rest = digits(n) + seq!['@'] + text;
    a_tagged_line('P', rest);
    after_a_pattern(seq!['@', 'P', '@'] + rest, TAG_ERROR@);
    a_number_holds_no_at(n);
    a_cut_is_at_the_first(digits(n), text, '@');
    what_is_written_is_read(n, usize::MAX as int);
    assert(with_piece(node.pieces, n as int, text) =~= node.pieces.push(text));
}

proof fn a_number_holds_no_at(n: nat)
    ensures
        !digits(n).contains('@'),
        trim(digits(n)) == digits(n),
    decreases n,
{
    number_characters(n);
    let d = digits(n);
    let nothing = Seq::<char>::empty();
    assert(crate::text::ascii_digit(d[0]) && crate::text::ascii_digit(d[d.len() - 1]));
    trimming_takes_off_what_is_around(nothing, d, nothing);
    assert(nothing + d + nothing =~= d);
}

proof fn number_characters(n: nat)
    ensures
        digits(n).len() > 0,
        forall|i: int| 0 <= i < digits(n).len() ==> crate::text::ascii_digit(#[trigger] digits(n)[i]),
    decreases n,
{
    if n >= 10 {
        number_characters(n / 10);
    }
}

/// The line that ends a walk says how many nodes there were, and a line that
/// reports an error says which.
pub proof fn the_end_and_an_error_are_read(walk: Walk, n: nat, why: Seq<char>)
    requires
        n <= usize::MAX,
        solid(why),
        !occurs(seq!['@', 'E', '@'] + digits(n), seq!['@', 'X', '@']),
    ensures
        walk.line(seq!['@', 'E', '@'] + digits(n)) == (Walk { reported: Some(n as int), ..walk }),
        walk.line(seq!['@', 'X', '@'] + why) == (Walk { error: Some(why), ..walk }),
{
    the_tags();
    number_characters(n);
    assert(crate::text::ascii_digit(digits(n)[digits(n).len() - 1]));
    a_tagged_line('E', digits(n));
    a_tagged_line('X', why);
    after_a_pattern(seq!['@', 'E', '@'] + digits(n), TAG_ERROR@);
    a_number_holds_no_at(n);
    what_is_written_is_read(n, usize::MAX as int);
    let nothing = Seq::<char>::empty();
    trimming_takes_off_what_is_around(nothing, why, nothing);
    assert(nothing + why + nothing =~= why);
}

/// The widest of some counts is one of them, and none is greater.
pub proof fn the_widest_is_the_greatest(counts: Seq<nat>, i: int)
    requires
        0 <= i < counts.len(),
    ensures
        counts[i] <= widest(counts),
        counts.contains(widest(counts)),
    decreases counts.len(),
{
    let before = counts.drop_last();
    if counts.len() > 1 {
        the_widest_is_the_greatest(before, 0);
        if i < before.len() {
            the_widest_is_the_greatest(before, i);
            assert(before[i] == counts[i]);
        }
        if counts.last() <= widest(before) {
            let k = choose|k: int| 0 <= k < before.len() && before[k] == widest(before);
            assert(counts[k] == widest(counts));
        } else {
            assert(counts[counts.len() - 1] == widest(counts));
        }
    } else {
        assert(before =~= Seq::empty());
        assert(counts[0] == counts.last());
        assert(widest(before) == 0);
    }
}

/// A value is its pieces with the delimiter between each two.
pub proof fn a_value_is_its_pieces(pieces: Seq<Seq<char>>, delim: Seq<char>, last: Seq<char>)
    ensures
        pieces.len() > 0 ==> reassembled(pieces.push(last), delim) == reassembled(pieces, delim)
            + delim + last,
        reassembled(seq![last], delim) == last,
{
    assert(pieces.push(last).drop_last() =~= pieces);
}

// ---- what is sent -------------------------------------------------------

/// A global is named without its carets and the white space around it.
pub proof fn carets_come_off(name: Seq<char>)
    requires
        solid(name),
        name[0] != '^',
    ensures
        bare_name(name) == name,
        bare_name(seq!['^'] + name) == name,
        bare_name(seq![' ', '^'] + name + seq![' ']) == name,
{
    let nothing = Seq::<char>::empty();
    let one = seq!['^'] + name;
    trimming_takes_off_what_is_around(nothing, name, nothing);
    trimming_takes_off_what_is_around(nothing, one, nothing);
    trimming_takes_off_what_is_around(seq![' '], one, seq![' ']);
    assert(nothing + name + nothing =~= name);
    assert(nothing + one + nothing =~= one);
    assert(seq![' '] + one + seq![' '] =~= seq![' ', '^'] + name + seq![' ']);
    assert(one.last() == name.last());
    assert(one.skip(1) =~= name);
    reveal_with_fuel(without_carets, 2);
}

/// The walk starts at the global, or where it is to be resumed; it stops after
/// as many nodes as were asked for, and one at least; and the pieces are parted
/// by the delimiter, which is a caret if none is given.
pub proof fn the_walk_does_what_was_asked(query: Query)
    ensures
        trim(query.start@).len() == 0 ==> query.from() == seq!['^'] + bare_name(query.global@),
        trim(query.start@).len() > 0 ==> query.from() == trim(query.start@),
        query.limit >= 1 ==> query.most() == query.limit,
        query.limit == 0 ==> query.most() == 1,
        query.delimiter@.len() > 0 ==> query.separator() == query.delimiter@,
        query.delimiter@.len() == 0 ==> query.separator() == seq!['^'],
        query.script()
            == "Try { Set nitC=0,nitQ="@ + literal(query.from())
            + " For { Set nitQ=$Query(@nitQ) Quit:nitQ=\"\"  Set nitC=nitC+1,nitV=$Get(@nitQ) "@
            + "Write \"@N@\",nitQ,! For nitI=1:1:$Length(nitV,"@ + literal(query.separator())
            + ") { Write \"@P@\",nitI,\"@\",$Piece(nitV,"@ + literal(query.separator())
            + ",nitI),! } Quit:nitC>="@ + digits(query.most())
            + "  } Write \"@E@\",nitC,! } Catch nitE { Write \"@X@\",nitE.DisplayString(),! }"@,
{
    reveal_strlit("^");
    assert("^"@ =~= seq!['^']);
}

// ---- stripping ----------------------------------------------------------

proof fn csi_goes_on(s: Seq<char>, i: int, end: int)
    requires
        0 <= i <= end < s.len(),
        forall|k: int| i <= k < end ==> 0x20 <= #[trigger] s[k] as u32 <= 0x3f,
        0x40 <= s[end] as u32 <= 0x7e,
    ensures
        super::global_browser::csi_end(s, i) == end + 1,
    decreases end - i,
{
    if i < end {
        csi_goes_on(s, i + 1, end);
    }
}

/// A control sequence is taken out whole: from the escape character through its
/// parameters to the letter that ends it.
pub proof fn a_control_sequence_comes_out(params: Seq<char>, last: char, rest: Seq<char>)
    requires
        forall|k: int| 0 <= k < params.len() ==> 0x20 <= #[trigger] params[k] as u32 <= 0x3f,
        0x40 <= last as u32 <= 0x7e,
    ensures
        plain(seq!['\u{1b}', '['] + params + seq![last] + rest) == plain(rest),
{
    let head = seq!['\u{1b}', '['] + params + seq![last];
    let s = head + rest;
    let n = params.len() as int;
    assert(s[0] == '\u{1b}' && s[1] == '[');
    assert forall|k: int| 2 <= k < n + 2 implies 0x20 <= #[trigger] s[k] as u32 <= 0x3f by {
        assert(s[k] == params[k - 2]);
    }
    assert(s[n + 2] == last);
    csi_goes_on(s, 2, n + 2);
    assert(plain_from(s, 0) == plain_from(s, n + 3));
    stripping_behind(head, rest, 0);
}

proof fn osc_goes_on(s: Seq<char>, i: int, end: int)
    requires
        0 <= i <= end < s.len(),
        forall|k: int| i <= k < end ==> #[trigger] s[k] != '\u{7}' && s[k] != '\u{1b}',
        s[end] == '\u{7}',
    ensures
        super::global_browser::osc_end(s, i) == end + 1,
    decreases end - i,
{
    if i < end {
        osc_goes_on(s, i + 1, end);
    }
}

/// So is a command to the terminal, up to the bell that ends it, and a choice of
/// character set; and bells and shifts are no data either.
pub proof fn a_terminal_command_comes_out(text: Seq<char>, set: char, rest: Seq<char>)
    requires
        forall|k: int| 0 <= k < text.len() ==> #[trigger] text[k] != '\u{7}' && text[k] != '\u{1b}',
    ensures
        plain(seq!['\u{1b}', ']'] + text + seq!['\u{7}'] + rest) == plain(rest),
        plain(seq!['\u{1b}', '(', set] + rest) == plain(rest),
        plain(seq!['\u{7}'] + rest) == plain(rest),
        plain(seq!['\u{e}'] + rest) == plain(rest),
        plain(seq!['\u{f}'] + rest) == plain(rest),
{
    let head = seq!['\u{1b}', ']'] + text + seq!['\u{7}'];
    let s = head + rest;
    let n = text.len() as int;
    assert(s[0] == '\u{1b}' && s[1] == ']');
    assert forall|k: int| 2 <= k < n + 2 implies #[trigger] s[k] != '\u{7}' && s[k] != '\u{1b}' by {
        assert(s[k] == text[k - 2]);
    }
    assert(s[n + 2] == '\u{7}');
    osc_goes_on(s, 2, n + 2);
    assert(plain_from(s, 0) == plain_from(s, n + 3));
    stripping_behind(head, rest, 0);
    let t = seq!['\u{1b}', '(', set] + rest;
    assert(t[0] == '\u{1b}' && t[1] == '(');
    assert(plain_from(t, 0) == plain_from(t, 3));
    stripping_behind(seq!['\u{1b}', '(', set], rest, 0);
    stripping_behind(seq!['\u{7}'], rest, 0);
    stripping_behind(seq!['\u{e}'], rest, 0);
    stripping_behind(seq!['\u{f}'], rest, 0);
    assert((seq!['\u{7}'] + rest)[0] == '\u{7}');
    assert((seq!['\u{e}'] + rest)[0] == '\u{e}');
    assert((seq!['\u{f}'] + rest)[0] == '\u{f}');
}

/// Every other character is kept.
pub proof fn other_characters_are_kept(c: char, rest: Seq<char>)
    requires
        c != '\u{1b}' && c != '\u{7}' && c != '\u{e}' && c != '\u{f}',
    ensures
        plain(seq![c] + rest) == seq![c] + plain(rest),
{
    assert((seq![c] + rest)[0] == c);
    stripping_behind(seq![c], rest, 0);
}

proof fn stripping_behind(a: Seq<char>, b: Seq<char>, j: int)
    requires
        0 <= j,
    ensures
        plain_from(a + b, a.len() + j) == plain_from(b, j),
{
    super::global_browser_laws::stripping_moves_along(a, b, j);
}

/// An answer is read line after line, and the node that was being read is part of
/// it.
pub proof fn an_answer_is_read_in_turn(lines: Seq<Seq<char>>, line: Seq<char>, output: Seq<char>)
    ensures
        walked(lines.push(line)) == walked(lines).line(line),
        walked(Seq::<Seq<char>>::empty()).nodes.len() == 0,
        answer(output) == walked(split(plain(output), '\n')).close(),
        answer(output).current is None,
        ({
            let walk = walked(split(plain(output), '\n'));
            answer(output).nodes == match walk.current {
                Some(node) => walk.nodes.push(node),
                None => walk.nodes,
            }
        }),
{
    assert(lines.push(line).drop_last() =~= lines);
}

/// A line without a tag is no part of the answer.
pub proof fn a_line_without_a_tag_says_nothing(walk: Walk, line: Seq<char>)
    requires
        !occurs(trim_end(line), TAG_ERROR@),
        !occurs(trim_end(line), TAG_END@),
        !occurs(trim_end(line), TAG_NODE@),
        !occurs(trim_end(line), TAG_PIECE@),
    ensures
        walk.line(line) == walk,
{
    let s = trim_end(line);
    the_tags();
    after_a_pattern(s, TAG_ERROR@);
    after_a_pattern(s, TAG_END@);
    after_a_pattern(s, TAG_NODE@);
    after_a_pattern(s, TAG_PIECE@);
    if s.len() >= 3 {
        assert(s.take(3) =~= s.subrange(0, 3));
    }
}

/// A walk can be run on a name of letters, digits and what a reference is written
/// with, and on nothing else.
pub proof fn what_a_walk_can_be_run_on(query: Query, i: int)
    ensures
        bare_name(query.global@).len() == 0 ==> !query.runnable(),
        query.runnable() && 0 <= i < bare_name(query.global@).len() ==> ({
            let c = bare_name(query.global@)[i];
            ('a' <= c && c <= 'z') || ('A' <= c && c <= 'Z') || ('0' <= c && c <= '9') || c == '%'
                || c == '.' || c == '(' || c == ')' || c == ',' || c == '"'
        }),
        bare_name(query.global@).len() > 0 && (forall|k: int|
            0 <= k < bare_name(query.global@).len() ==> ({
                let c = #[trigger] bare_name(query.global@)[k];
                ('a' <= c && c <= 'z') || ('A' <= c && c <= 'Z') || ('0' <= c && c <= '9') || c
                    == '%' || c == '.' || c == '(' || c == ')' || c == ',' || c == '"'
            })) ==> query.runnable(),
{
}

/// Between empty brackets there is nothing, and a bracket that is not closed reaches
/// to the end.
pub proof fn what_stands_between_the_brackets(name: Seq<char>, inner: Seq<char>)
    requires
        !name.contains('('),
    ensures
        between_parens(name + seq!['('] + inner + seq![')']) == Some(inner),
        inner.len() > 0 && inner.last() != ')' ==> between_parens(name + seq!['('] + inner) == Some(
            inner,
        ),
        between_parens(name) is None,
{
    let closed = inner + seq![')'];
    a_cut_is_at_the_first(name, closed, '(');
    a_cut_is_at_the_first(name, inner, '(');
    assert(name + seq!['('] + closed =~= name + seq!['('] + inner + seq![')']);
    assert(closed.drop_last() =~= inner);
}

} // verus!
