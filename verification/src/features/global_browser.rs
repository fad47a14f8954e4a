//! A structured browser for IRIS globals.
//!
//! A short read-only ObjectScript walk emits one tagged line per node and per
//! `$Piece`, and the result becomes a searchable, paginated grid where every
//! piece is a labelled column.
//!
//! Two decisions are worth stating, because both are about not losing data:
//!
//! * Pieces are split on the IRIS side. `$Piece` is the authority on what piece
//!   *n* is.
//! * One line per piece, not one per node. IRIS truncates output at the
//!   terminal's right margin rather than wrapping it, so a wide node written on
//!   a single line silently loses its tail.
//!
//! Everything here is read-only: `$Query` and `$Get` only.

use vstd::prelude::*;

use crate::number::{read_unsigned, unsigned};
use crate::objectscript::{literal, quoted};
use crate::text::{
    after, ascii_alnum, behind, chars_of, contains, copied, cut_once, decimal, digits,
    end_of_trimmed, find, first_at, found_at, is_alnum, occurs, opt_text, search, split,
    split_chars, stands_at, start_of_trimmed, text_between, text_of, texts, trim, trim_end,
    trimmed, unicode_lower, views,
};

verus! {

/// Line tags. Chosen to be improbable in real data and trivial to scan for.
pub const TAG_NODE: &'static str = "@N@";

pub const TAG_PIECE: &'static str = "@P@";

pub const TAG_END: &'static str = "@E@";

pub const TAG_ERROR: &'static str = "@X@";

/// What the walk begins with.
pub const SCRIPT_OPENING: &'static str = "Try { Set nitC=0,nitQ=";

/// Default cap on nodes fetched per request. A global can hold millions of
/// nodes; pulling them all through a terminal would hang the session.
pub const DEFAULT_LIMIT: usize = 500;

#[derive(Clone, Debug, PartialEq, Eq)]
pub struct Query {
    /// Global name, with or without the leading caret.
    pub global: String,
    /// Resume point: a full reference such as `^CSW1(12,3)`. Empty starts at
    /// the beginning.
    pub start: String,
    pub limit: usize,
    /// Delimiter for `$Piece`. `^` is the ObjectScript default.
    pub delimiter: String,
}

impl Default for Query {
    fn default() -> (query: Self)
        ensures
            query.global@.len() == 0,
            query.start@.len() == 0,
            query.limit == DEFAULT_LIMIT,
            query.delimiter@ == "^"@,
    {
        Query {
            global: String::new(),
            start: String::new(),
            limit: DEFAULT_LIMIT,
            delimiter: "^".to_owned(),
        }
    }
}

// ---- the walk -----------------------------------------------------------

/// A text without the carets at its start.
pub open spec fn without_carets(s: Seq<char>) -> Seq<char>
    decreases s.len(),
{
    if s.len() > 0 && s[0] == '^' {
        without_carets(s.skip(1))
    } else {
        s
    }
}

/// A global's name, without its caret.
pub open spec fn bare_name(global: Seq<char>) -> Seq<char> {
    without_carets(trim(global))
}

/// A character that a global reference may be made of.
pub open spec fn in_reference(c: char) -> bool {
    ascii_alnum(c) || c == '%' || c == '.' || c == '(' || c == ')' || c == ',' || c == '"'
}

/// The characters of a global's name and where they start.
fn name_of(global: &str) -> (r: (Vec<char>, usize, usize))
    ensures
        r.1 <= r.2 <= r.0@.len(),
        r.0@.subrange(r.1 as int, r.2 as int) == bare_name(global@),
{
    let chars = chars_of(global);
    let len = chars.len();
    let end = end_of_trimmed(chars.as_slice(), 0, len);
    let mut start = start_of_trimmed(chars.as_slice(), 0, end);
    assert(chars@.subrange(0, len as int) =~= global@);
    while start < end && chars[start] == '^'
        invariant
            start <= end <= chars@.len(),
            without_carets(chars@.subrange(start as int, end as int)) == bare_name(global@),
        decreases end - start,
    {
        assert(chars@.subrange(start as int, end as int).skip(1) =~= chars@.subrange(
            start + 1,
            end as int,
        ));
        start += 1;
    }
    (chars, start, end)
}

impl Query {
    /// The global reference with exactly one leading caret.
    pub fn normalized_global(&self) -> (out: String)
        ensures
            out@ == seq!['^'] + bare_name(self.global@),
    {
        let (chars, start, end) = name_of(self.global.as_str());
        let mut out = String::new();
        out.push('^');
        out.append(text_between(chars.as_slice(), start, end).as_str());
        assert(out@ =~= seq!['^'] + bare_name(self.global@));
        out
    }

    /// Whether there is a name and nothing in it but what a reference is made
    /// of.
    pub open spec fn runnable(&self) -> bool {
        let name = bare_name(self.global@);
        name.len() > 0 && forall|i: int| 0 <= i < name.len() ==> in_reference(#[trigger] name[i])
    }

    /// Whether the walk can be run.
    pub fn is_runnable(&self) -> (yes: bool)
        ensures
            yes == self.runnable(),
    {
        let (chars, start, end) = name_of(self.global.as_str());
        let ghost name = bare_name(self.global@);
        let mut i: usize = start;
        while i < end
            invariant
                start <= i <= end <= chars@.len(),
                name == chars@.subrange(start as int, end as int),
                name == bare_name(self.global@),
                forall|k: int| 0 <= k < i - start ==> in_reference(#[trigger] name[k]),
            decreases end - i,
        {
            let c = chars[i];
            assert(name[i - start] == c);
            if !(is_alnum(c) || matches!(c, '%' | '.' | '(' | ')' | ',' | '"')) {
                return false;
            }
            i += 1;
        }
        start < end
    }

    /// Where the walk starts: at the resume point, or at the global itself.
    pub open spec fn from(&self) -> Seq<char> {
        if trim(self.start@).len() == 0 {
            seq!['^'] + bare_name(self.global@)
        } else {
            trim(self.start@)
        }
    }

    pub open spec fn most(&self) -> nat {
        if self.limit < 1 {
            1
        } else {
            self.limit as nat
        }
    }

    pub open spec fn separator(&self) -> Seq<char> {
        if self.delimiter@.len() == 0 {
            "^"@
        } else {
            self.delimiter@
        }
    }

    /// The walk, wrapped so that a bad global name reports itself as one tagged
    /// line.
    pub open spec fn script(&self) -> Seq<char> {
        let delim = literal(self.separator());
        SCRIPT_OPENING@ + literal(self.from())
            + " For { Set nitQ=$Query(@nitQ) Quit:nitQ=\"\"  Set nitC=nitC+1,nitV=$Get(@nitQ) "@
            + "Write \"@N@\",nitQ,! For nitI=1:1:$Length(nitV,"@ + delim
            + ") { Write \"@P@\",nitI,\"@\",$Piece(nitV,"@ + delim + ",nitI),! } Quit:nitC>="@
            + digits(self.most())
            + "  } Write \"@E@\",nitC,! } Catch nitE { Write \"@X@\",nitE.DisplayString(),! }"@
    }
}

/// Builds the read-only walk.
///
/// Wrapped in a `Try/Catch` so a bad global name reports itself as one tagged
/// line instead of dropping the session into the `<SYNTAX>` error prompt, where
/// the next thing the user types would be swallowed.
pub fn build_script(query: &Query) -> (script: String)
    ensures
        script@ == query.script(),
{
    let resume = trimmed(query.start.as_str());
    let start = if resume.as_str().is_empty() {
        query.normalized_global()
    } else {
        resume
    };
    let limit = if query.limit < 1 {
        1
    } else {
        query.limit as u64
    };
    let delim = if query.delimiter.as_str().is_empty() {
        quoted("^")
    } else {
        quoted(query.delimiter.as_str())
    };
    let mut out = String::new();
    out.append(SCRIPT_OPENING);
    out.append(quoted(start.as_str()).as_str());
    out.append(" For { Set nitQ=$Query(@nitQ) Quit:nitQ=\"\"  Set nitC=nitC+1,nitV=$Get(@nitQ) ");
    out.append("Write \"@N@\",nitQ,! For nitI=1:1:$Length(nitV,");
    out.append(delim.as_str());
    out.append(") { Write \"@P@\",nitI,\"@\",$Piece(nitV,");
    out.append(delim.as_str());
    out.append(",nitI),! } Quit:nitC>=");
    out.append(decimal(limit).as_str());
    out.append("  } Write \"@E@\",nitC,! } Catch nitE { Write \"@X@\",nitE.DisplayString(),! }");
    assert(out@ =~= query.script());
    out
}

// ---- escape sequences ---------------------------------------------------

/// Past the end of the CSI sequence whose parameters go on at `i`.
pub open spec fn csi_end(s: Seq<char>, i: int) -> int
    decreases s.len() - i,
{
    if i >= s.len() || i < 0 {
        s.len() as int
    } else if 0x40 <= s[i] as u32 <= 0x7e {
        i + 1
    } else {
        csi_end(s, i + 1)
    }
}

/// Past the end of the operating system command that goes on at `i`: a BEL, or
/// ESC and a backslash.
pub open spec fn osc_end(s: Seq<char>, i: int) -> int
    decreases s.len() - i,
{
    if i >= s.len() || i < 0 {
        s.len() as int
    } else if s[i] == '\u{7}' {
        i + 1
    } else if s[i] == '\u{1b}' && i + 1 < s.len() && s[i + 1] == '\\' {
        i + 2
    } else {
        osc_end(s, i + 1)
    }
}

pub open spec fn at_most(i: int, len: int) -> int {
    if i <= len {
        i
    } else {
        len
    }
}

/// Past the end of the escape sequence that starts at `i`.
pub open spec fn escape_end(s: Seq<char>, i: int) -> int {
    let len = s.len() as int;
    if i + 1 >= len {
        len
    } else if s[i + 1] == '[' {
        csi_end(s, i + 2)
    } else if s[i + 1] == ']' {
        osc_end(s, i + 2)
    } else if s[i + 1] == '(' || s[i + 1] == ')' || s[i + 1] == '#' {
        at_most(i + 3, len)
    } else {
        i + 2
    }
}

/// A control character that is no data: BEL, and the charset toggles.
pub open spec fn no_data(c: char) -> bool {
    c == '\u{7}' || c == '\u{e}' || c == '\u{f}'
}

/// The text from `i` on without its escape sequences and stray controls.
pub open spec fn plain_from(s: Seq<char>, i: int) -> Seq<char>
    decreases s.len() - i,
{
    if i >= s.len() || i < 0 {
        Seq::empty()
    } else if s[i] == '\u{1b}' {
        let next = escape_end(s, i);
        if i < next <= s.len() {
            plain_from(s, next)
        } else {
            Seq::empty()
        }
    } else if no_data(s[i]) {
        plain_from(s, i + 1)
    } else {
        seq![s[i]] + plain_from(s, i + 1)
    }
}

pub open spec fn plain(s: Seq<char>) -> Seq<char> {
    plain_from(s, 0)
}

fn find_escape_end(chars: &[char], at: usize) -> (next: usize)
    requires
        at < chars@.len(),
    ensures
        next == escape_end(chars@, at as int),
        at < next <= chars@.len(),
{
    let len = chars.len();
    if at >= len - 1 {
        return len;
    }
    match chars[at + 1] {
        // CSI: parameters and intermediates, then a final byte in @..~.
        '[' => find_csi_end(chars, at + 2),
        // OSC: runs to BEL, or to ST (ESC backslash).
        ']' => find_osc_end(chars, at + 2),
        // Charset selection and similar two-character sequences.
        '(' | ')' | '#' => if at + 2 < len {
            at + 3
        } else {
            len
        },
        _ => at + 2,
    }
}

fn find_csi_end(chars: &[char], from: usize) -> (end: usize)
    requires
        from <= chars@.len(),
    ensures
        end == csi_end(chars@, from as int),
        from <= end <= chars@.len(),
{
    let len = chars.len();
    let mut i: usize = from;
    while i < len
        invariant
            from <= i <= len == chars@.len(),
            csi_end(chars@, from as int) == csi_end(chars@, i as int),
        decreases len - i,
    {
        let c = chars[i] as u32;
        if 0x40 <= c && c <= 0x7e {
            return i + 1;
        }
        i += 1;
    }
    len
}

fn find_osc_end(chars: &[char], from: usize) -> (end: usize)
    requires
        from <= chars@.len(),
    ensures
        end == osc_end(chars@, from as int),
        from <= end <= chars@.len(),
{
    let len = chars.len();
    let mut i: usize = from;
    while i < len
        invariant
            from <= i <= len == chars@.len(),
            osc_end(chars@, from as int) == osc_end(chars@, i as int),
        decreases len - i,
    {
        if chars[i] == '\u{7}' {
            return i + 1;
        }
        if chars[i] == '\u{1b}' && i < len - 1 && chars[i + 1] == '\\' {
            return i + 2;
        }
        i += 1;
    }
    len
}

fn strip(chars: &[char]) -> (out: Vec<char>)
    ensures
        out@ == plain(chars@),
{
    let mut out: Vec<char> = Vec::new();
    let mut i: usize = 0;
    while i < chars.len()
        invariant
            i <= chars@.len(),
            out@ + plain_from(chars@, i as int) =~= plain(chars@),
        decreases chars.len() - i,
    {
        let c = chars[i];
        if c == '\u{1b}' {
            i = find_escape_end(chars, i);
        } else {
            if !matches!(c, '\u{7}' | '\u{e}' | '\u{f}') {
                out.push(c);
            }
            i += 1;
        }
    }
    out
}

/// Removes ANSI/VT escape sequences from captured output.
///
/// The capture is the raw session stream, so it carries the cursor and erase
/// sequences emitted between writes. Left in place they would end up inside
/// piece text, and a value shown would silently differ from what is in the
/// database.
pub fn strip_ansi(text: &str) -> (out: String)
    ensures
        out@ == plain(text@),
{
    text_of(strip(chars_of(text).as_slice()).as_slice())
}

// ---- subscripts ---------------------------------------------------------

/// Subscripts read so far, and the one being read.
#[verifier::ext_equal]
pub struct Reading {
    pub done: Seq<Seq<char>>,
    pub current: Seq<char>,
    pub in_quotes: bool,
}

impl Reading {
    pub open spec fn add(self, c: char) -> Reading {
        Reading { current: self.current.push(c), ..self }
    }

    pub open spec fn next(self) -> Reading {
        Reading {
            done: self.done.push(trim(self.current)),
            current: Seq::empty(),
            in_quotes: self.in_quotes,
        }
    }

    pub open spec fn finish(self) -> Seq<Seq<char>> {
        if trim(self.current).len() > 0 {
            self.done.push(trim(self.current))
        } else {
            self.done
        }
    }
}

/// Reading on from column `i`. A doubled quote inside quotes is one quote of
/// content, and a comma inside quotes is no separator.
pub open spec fn read_on(s: Seq<char>, i: int, r: Reading) -> Reading
    decreases s.len() - i,
{
    if i < 0 || i >= s.len() {
        r
    } else if s[i] == '"' {
        if r.in_quotes && i + 1 < s.len() && s[i + 1] == '"' {
            read_on(s, i + 2, r.add('"'))
        } else {
            read_on(s, i + 1, Reading { in_quotes: !r.in_quotes, ..r }.add('"'))
        }
    } else if s[i] == ',' && !r.in_quotes {
        read_on(s, i + 1, r.next())
    } else {
        read_on(s, i + 1, r.add(s[i]))
    }
}

/// What stands between the parentheses of a reference.
pub open spec fn between_parens(s: Seq<char>) -> Option<Seq<char>> {
    match first_at(s, '(', 0) {
        Some(open) => {
            let inner = s.skip(open + 1);
            Some(
                if inner.len() > 0 && inner.last() == ')' {
                    inner.drop_last()
                } else {
                    inner
                },
            )
        },
        None => None,
    }
}

pub open spec fn subscripts_of(reference: Seq<char>) -> Seq<Seq<char>> {
    match between_parens(reference) {
        Some(inner) => read_on(
            inner,
            0,
            Reading { done: Seq::empty(), current: Seq::empty(), in_quotes: false },
        ).finish(),
        None => Seq::empty(),
    }
}

fn trimmed_chars(chars: &Vec<char>) -> (s: String)
    ensures
        s@ == trim(chars@),
{
    let len = chars.len();
    let end = end_of_trimmed(chars.as_slice(), 0, len);
    let start = start_of_trimmed(chars.as_slice(), 0, end);
    assert(chars@.subrange(0, len as int) =~= chars@);
    text_between(chars.as_slice(), start, end)
}

fn split_reference(chars: &[char]) -> (out: Vec<String>)
    ensures
        texts(out@) == subscripts_of(chars@),
{
    let mut out: Vec<String> = Vec::new();
    assert(texts(out@) =~= Seq::empty());
    let open = match find(chars, '(') {
        Some(open) => open,
        None => return out,
    };
    let len = chars.len();
    let to = if len > open + 1 && chars[len - 1] == ')' {
        len - 1
    } else {
        len
    };
    let ghost inner = between_parens(chars@)->0;
    assert(inner =~= chars@.subrange(open + 1, to as int));
    let ghost start = Reading {
        done: Seq::empty(),
        current: Seq::empty(),
        in_quotes: false,
    };
    let mut current: Vec<char> = Vec::new();
    let mut in_quotes = false;
    let mut i: usize = open + 1;
    while i < to
        invariant
            open + 1 <= i <= to <= chars@.len(),
            inner == chars@.subrange(open + 1, to as int),
            read_on(inner, 0, start) == read_on(
                inner,
                i - open - 1,
                Reading { done: texts(out@), current: current@, in_quotes },
            ),
        decreases to - i,
    {
        let ch = chars[i];
        assert(inner[i - open - 1] == ch);
        if ch == '"' {
            if i < to - 1 {
                assert(inner[i - open] == chars@[i + 1]);
            }
            if in_quotes && i < to - 1 && chars[i + 1] == '"' {
                i += 1;
            } else {
                in_quotes = !in_quotes;
            }
            current.push('"');
        } else if ch == ',' && !in_quotes {
            let ghost before = texts(out@);
            let done = trimmed_chars(&current);
            out.push(done);
            assert(texts(out@) =~= before.push(done@));
            current = Vec::new();
        } else {
            current.push(ch);
        }
        i += 1;
    }
    let last = trimmed_chars(&current);
    if !last.as_str().is_empty() {
        let ghost before = texts(out@);
        out.push(last);
        assert(texts(out@) =~= before.push(last@));
    }
    out
}

/// Splits `^CSW1(12,"ab",3)` into `["12", "\"ab\"", "3"]`.
///
/// Quoted subscripts may contain commas and parentheses, so this tracks quote
/// state rather than splitting naively.
pub fn split_subscripts(reference: &str) -> (out: Vec<String>)
    ensures
        texts(out@) == subscripts_of(reference@),
{
    split_reference(chars_of(reference).as_slice())
}

// ---- the answer ---------------------------------------------------------

/// One global node.
#[derive(Clone, Debug, PartialEq, Eq)]
pub struct Node {
    /// Full reference as IRIS reported it, e.g. `^CSW1(12,3)`.
    pub reference: String,
    /// Subscripts split out of the reference, in order.
    pub subscripts: Vec<String>,
    /// `$Piece` values, piece 1 first.
    pub pieces: Vec<String>,
}

impl Default for Node {
    fn default() -> (node: Self)
        ensures
            node.reference@ == Seq::<char>::empty(),
            node.subscripts@ == Seq::<String>::empty(),
            node.pieces@ == Seq::<String>::empty(),
    {
        Node { reference: String::new(), subscripts: Vec::new(), pieces: Vec::new() }
    }
}

/// A [`Node`] as a mathematical value.
#[verifier::ext_equal]
pub struct NodeState {
    pub reference: Seq<char>,
    pub subscripts: Seq<Seq<char>>,
    pub pieces: Seq<Seq<char>>,
}

impl View for Node {
    type V = NodeState;

    open spec fn view(&self) -> NodeState {
        NodeState {
            reference: self.reference@,
            subscripts: texts(self.subscripts@),
            pieces: texts(self.pieces@),
        }
    }
}

pub open spec fn node_states(nodes: Seq<Node>) -> Seq<NodeState> {
    nodes.map_values(|n: Node| n@)
}

/// Pieces put together, the delimiter between each two.
pub open spec fn reassembled(pieces: Seq<Seq<char>>, delim: Seq<char>) -> Seq<char>
    decreases pieces.len(),
{
    if pieces.len() == 0 {
        Seq::empty()
    } else if pieces.len() == 1 {
        pieces[0]
    } else {
        reassembled(pieces.drop_last(), delim) + delim + pieces.last()
    }
}

impl Node {
    /// The node's value, reassembled. Useful for search and for copying.
    pub fn value(&self, delimiter: &str) -> (out: String)
        ensures
            out@ == reassembled(self@.pieces, delimiter@),
    {
        let ghost want = self@.pieces;
        let mut out = String::new();
        let mut i: usize = 0;
        assert(want.take(0) =~= Seq::empty());
        while i < self.pieces.len()
            invariant
                i <= self.pieces@.len(),
                want == self@.pieces,
                out@ == reassembled(want.take(i as int), delimiter@),
            decreases self.pieces.len() - i,
        {
            assert(want.take(i + 1).drop_last() =~= want.take(i as int));
            assert(want[i as int] == self.pieces@[i as int]@);
            let ghost before = out@;
            if i > 0 {
                out.append(delimiter);
            }
            out.append(self.pieces[i].as_str());
            if i == 0 {
                assert(out@ =~= want[0]);
            } else {
                assert(out@ =~= before + delimiter@ + want[i as int]);
            }
            i += 1;
        }
        assert(want.take(i as int) =~= want);
        out
    }

    /// True when the reference or any piece contains `needle`, compared
    /// case-insensitively.
    pub fn matches(&self, needle: &str) -> (yes: bool)
        ensures
            yes == (needle@.len() == 0 || occurs(
                unicode_lower(self@.reference),
                unicode_lower(needle@),
            ) || exists|i: int|
                0 <= i < self@.pieces.len() && occurs(
                    unicode_lower(#[trigger] self@.pieces[i]),
                    unicode_lower(needle@),
                )),
    {
        if needle.is_empty() {
            return true;
        }
        let pat = chars_of(needle.to_lowercase().as_str());
        let reference = chars_of(self.reference.as_str().to_lowercase().as_str());
        if contains(reference.as_slice(), pat.as_slice()) {
            return true;
        }
        let mut i: usize = 0;
        while i < self.pieces.len()
            invariant
                i <= self.pieces@.len(),
                pat@ == unicode_lower(needle@),
                forall|k: int|
                    0 <= k < i ==> !occurs(unicode_lower(#[trigger] self@.pieces[k]), pat@),
            decreases self.pieces.len() - i,
        {
            assert(self@.pieces[i as int] == self.pieces@[i as int]@);
            let piece = chars_of(self.pieces[i].as_str().to_lowercase().as_str());
            if contains(piece.as_slice(), pat.as_slice()) {
                return true;
            }
            i += 1;
        }
        false
    }
}

#[derive(Clone, Debug, PartialEq, Eq)]
pub struct Page {
    pub nodes: Vec<Node>,
    /// Node count IRIS reported, present once the walk finished cleanly.
    pub reported: Option<usize>,
    /// An IRIS error, if the walk failed.
    pub error: Option<String>,
    /// True when the limit was reached, so more nodes remain.
    pub truncated: bool,
}

impl Default for Page {
    fn default() -> (page: Self)
        ensures
            page.nodes@ == Seq::<Node>::empty(),
            page.reported is None,
            page.error is None,
            !page.truncated,
    {
        Page { nodes: Vec::new(), reported: None, error: None, truncated: false }
    }
}

/// The most of anything that any node has.
pub open spec fn widest(counts: Seq<nat>) -> nat
    decreases counts.len(),
{
    if counts.len() == 0 {
        0
    } else {
        let before = widest(counts.drop_last());
        if counts.last() > before {
            counts.last()
        } else {
            before
        }
    }
}

impl Page {
    /// Reference to resume from, for fetching the next page.
    pub fn resume_from(&self) -> (reference: Option<String>)
        ensures
            opt_text(reference) == if self.truncated && self.nodes@.len() > 0 {
                Some(node_states(self.nodes@).last().reference)
            } else {
                None
            },
    {
        if self.truncated && self.nodes.len() > 0 {
            Some(self.nodes[self.nodes.len() - 1].reference.clone())
        } else {
            None
        }
    }

    /// Widest piece count, which is how many piece columns the grid needs.
    pub fn piece_columns(&self) -> (n: usize)
        ensures
            n == widest(node_states(self.nodes@).map_values(|n: NodeState| n.pieces.len())),
    {
        let ghost want = node_states(self.nodes@).map_values(|n: NodeState| n.pieces.len());
        let mut n: usize = 0;
        let mut i: usize = 0;
        assert(want.take(0) =~= Seq::empty());
        while i < self.nodes.len()
            invariant
                i <= self.nodes@.len(),
                want == node_states(self.nodes@).map_values(|n: NodeState| n.pieces.len()),
                n == widest(want.take(i as int)),
            decreases self.nodes.len() - i,
        {
            assert(want.take(i + 1).drop_last() =~= want.take(i as int));
            assert(node_states(self.nodes@)[i as int] == self.nodes@[i as int]@);
            let count = self.nodes[i].pieces.len();
            if count > n {
                n = count;
            }
            i += 1;
        }
        assert(want.take(i as int) =~= want);
        n
    }

    /// Deepest subscript count, likewise for subscript columns.
    pub fn subscript_columns(&self) -> (n: usize)
        ensures
            n == widest(node_states(self.nodes@).map_values(|n: NodeState| n.subscripts.len())),
    {
        let ghost want = node_states(self.nodes@).map_values(|n: NodeState| n.subscripts.len());
        let mut n: usize = 0;
        let mut i: usize = 0;
        assert(want.take(0) =~= Seq::empty());
        while i < self.nodes.len()
            invariant
                i <= self.nodes@.len(),
                want == node_states(self.nodes@).map_values(|n: NodeState| n.subscripts.len()),
                n == widest(want.take(i as int)),
            decreases self.nodes.len() - i,
        {
            assert(want.take(i + 1).drop_last() =~= want.take(i as int));
            assert(node_states(self.nodes@)[i as int] == self.nodes@[i as int]@);
            let count = self.nodes[i].subscripts.len();
            if count > n {
                n = count;
            }
            i += 1;
        }
        assert(want.take(i as int) =~= want);
        n
    }
}

/// What has been read of an answer.
#[verifier::ext_equal]
pub struct Walk {
    /// Nodes that are complete.
    pub nodes: Seq<NodeState>,
    /// The node whose pieces are being read.
    pub current: Option<NodeState>,
    pub reported: Option<int>,
    pub error: Option<Seq<char>>,
}

/// A piece put in its place. Pieces arrive in order, but a dropped line must
/// not shift every later piece: what is missing is left blank.
pub open spec fn with_piece(pieces: Seq<Seq<char>>, index: int, text: Seq<char>) -> Seq<Seq<char>> {
    if index <= pieces.len() {
        pieces.update(index - 1, text)
    } else {
        (pieces + Seq::new((index - 1 - pieces.len()) as nat, |i: int| Seq::empty())).push(text)
    }
}

/// Whether a line begins with one of the tags, as every line that the walk
/// writes does.
pub open spec fn begins_tagged(line: Seq<char>) -> bool {
    behind(line, TAG_ERROR@) is Some || behind(line, TAG_END@) is Some || behind(
        line,
        TAG_NODE@,
    ) is Some || behind(line, TAG_PIECE@) is Some
}

/// What a line that reports no error says behind a tag. A line that begins with
/// a tag carries that one and no other, whatever its text holds; on any other
/// line, such as one that a prompt still stands on, the tag may stand anywhere.
pub open spec fn told(line: Seq<char>, tag: Seq<char>, begins: bool) -> Option<Seq<char>> {
    if begins {
        behind(line, tag)
    } else {
        after(line, tag)
    }
}

/// Whether any of the tags stands in a text.
pub open spec fn holds_a_tag(s: Seq<char>) -> bool {
    occurs(s, TAG_ERROR@) || occurs(s, TAG_END@) || occurs(s, TAG_NODE@) || occurs(s, TAG_PIECE@)
}

/// Whether a line is the script being echoed, which holds every tag and says
/// nothing: the script's beginning stands on it, and no tag before that.
pub open spec fn echoed(line: Seq<char>) -> bool {
    match found_at(line, SCRIPT_OPENING@, 0) {
        Some(at) => !holds_a_tag(line.take(at)),
        None => false,
    }
}

impl Walk {
    pub open spec fn start() -> Walk {
        Walk { nodes: Seq::empty(), current: None, reported: None, error: None }
    }

    /// The node being read is complete.
    pub open spec fn close(self) -> Walk {
        match self.current {
            Some(node) => Walk { nodes: self.nodes.push(node), current: None, ..self },
            None => self,
        }
    }

    /// A node begins.
    pub open spec fn open(self, rest: Seq<char>) -> Walk {
        let reference = trim(rest);
        Walk {
            current: Some(
                NodeState {
                    reference,
                    subscripts: subscripts_of(reference),
                    pieces: Seq::empty(),
                },
            ),
            ..self.close()
        }
    }

    /// A piece, `<index>@<text>`: the text may itself contain `@`, and pieces
    /// are counted from one.
    pub open spec fn piece(self, rest: Seq<char>) -> Walk {
        match (cut_once(rest, '@'), self.current) {
            (Some((index, text)), Some(node)) => match unsigned(trim(index), usize::MAX as int) {
                Some(n) => if n > 0 {
                    Walk {
                        current: Some(
                            NodeState { pieces: with_piece(node.pieces, n, text), ..node },
                        ),
                        ..self
                    }
                } else {
                    self
                },
                None => self,
            },
            _ => self,
        }
    }

    /// One line. What carries no tag is no part of the answer, nor is the echo of
    /// the command. A walk may fail in the middle of a line, so an error is found
    /// anywhere on one.
    pub open spec fn line(self, raw: Seq<char>) -> Walk {
        let line = trim_end(raw);
        let begins = begins_tagged(line);
        if echoed(line) {
            self
        } else if after(line, TAG_ERROR@) is Some {
            Walk { error: Some(trim(after(line, TAG_ERROR@)->0)), ..self }
        } else if told(line, TAG_END@, begins) is Some {
            Walk {
                reported: unsigned(trim(told(line, TAG_END@, begins)->0), usize::MAX as int),
                ..self
            }
        } else if told(line, TAG_NODE@, begins) is Some {
            self.open(told(line, TAG_NODE@, begins)->0)
        } else if told(line, TAG_PIECE@, begins) is Some {
            self.piece(told(line, TAG_PIECE@, begins)->0)
        } else {
            self
        }
    }
}

pub open spec fn walked(lines: Seq<Seq<char>>) -> Walk
    decreases lines.len(),
{
    if lines.len() == 0 {
        Walk::start()
    } else {
        walked(lines.drop_last()).line(lines.last())
    }
}

/// Everything that an answer says.
pub open spec fn answer(output: Seq<char>) -> Walk {
    walked(split(plain(output), '\n')).close()
}

struct PageReader {
    nodes: Vec<Node>,
    current: Option<Node>,
    reported: Option<usize>,
    error: Option<String>,
}

impl View for PageReader {
    type V = Walk;

    closed spec fn view(&self) -> Walk {
        Walk {
            nodes: node_states(self.nodes@),
            current: match self.current {
                Some(node) => Some(node@),
                None => None,
            },
            reported: match self.reported {
                Some(n) => Some(n as int),
                None => None,
            },
            error: opt_text(self.error),
        }
    }
}

/// What a line says behind the tag that it begins with, if it is this one.
fn find_at_start(line: &[char], tag: &str) -> (rest: Option<Vec<char>>)
    ensures
        match rest {
            Some(rest) => behind(line@, tag@) == Some(rest@),
            None => behind(line@, tag@) is None,
        },
{
    let pat = chars_of(tag);
    assert(line@.len() >= tag@.len() ==> line@.subrange(0, tag@.len() as int) =~= line@.take(
        tag@.len() as int,
    ));
    if stands_at(line, 0, pat.as_slice()) {
        let rest = copied(line, pat.len(), line.len());
        assert(rest@ =~= line@.skip(tag@.len() as int));
        Some(rest)
    } else {
        None
    }
}

fn has(line: &[char], pat: &str) -> (yes: bool)
    ensures
        yes == occurs(line@, pat@),
{
    contains(line, chars_of(pat).as_slice())
}

/// Whether a line is the script being echoed.
fn is_echo(line: &[char]) -> (yes: bool)
    ensures
        yes == echoed(line@),
{
    match search(line, chars_of(SCRIPT_OPENING).as_slice()) {
        Some(at) => {
            let head = copied(line, 0, at);
            assert(head@ =~= line@.take(at as int));
            let head = head.as_slice();
            !(has(head, TAG_ERROR) || has(head, TAG_END) || has(head, TAG_NODE) || has(
                head,
                TAG_PIECE,
            ))
        },
        None => false,
    }
}

/// What a line says behind a tag.
fn find_tag(line: &[char], tag: &str, begins: bool) -> (rest: Option<Vec<char>>)
    ensures
        match rest {
            Some(rest) => told(line@, tag@, begins) == Some(rest@),
            None => told(line@, tag@, begins) is None,
        },
{
    if begins {
        return find_at_start(line, tag);
    }
    let pat = chars_of(tag);
    let len = line.len();
    match search(line, pat.as_slice()) {
        Some(at) => {
            let from = at + pat.len();
            let rest = copied(line, from, len);
            assert(rest@ =~= line@.skip(from as int));
            Some(rest)
        },
        None => None,
    }
}

/// Reads a number out of characters that may have white space around it.
fn number(chars: &[char], to: usize) -> (n: Option<usize>)
    requires
        to <= chars@.len(),
    ensures
        match n {
            Some(n) => unsigned(trim(chars@.take(to as int)), usize::MAX as int) == Some(n as int),
            None => unsigned(trim(chars@.take(to as int)), usize::MAX as int) is None,
        },
{
    let end = end_of_trimmed(chars, 0, to);
    let start = start_of_trimmed(chars, 0, end);
    assert(chars@.subrange(0, to as int) =~= chars@.take(to as int));
    match read_unsigned(chars, start, end, usize::MAX as u64) {
        Some(n) => Some(n as usize),
        None => None,
    }
}

/// Puts a piece in its place.
fn put_piece(pieces: &mut Vec<String>, index: usize, text: String)
    requires
        index > 0,
    ensures
        texts(final(pieces)@) == with_piece(texts(old(pieces)@), index as int, text@),
{
    let ghost was = texts(pieces@);
    if index <= pieces.len() {
        pieces[index - 1] = text;
        assert(texts(pieces@) =~= was.update(index - 1, text@));
    } else {
        while pieces.len() < index - 1
            invariant
                was.len() <= pieces@.len() <= index - 1,
                texts(pieces@) =~= was + Seq::new(
                    (pieces@.len() - was.len()) as nat,
                    |i: int| Seq::<char>::empty(),
                ),
            decreases index - pieces.len(),
        {
            let ghost before = texts(pieces@);
            let blank = String::new();
            pieces.push(blank);
            assert(texts(pieces@) =~= before.push(blank@));
            assert(blank@ =~= Seq::empty());
        }
        let ghost before = texts(pieces@);
        pieces.push(text);
        assert(texts(pieces@) =~= before.push(text@));
        assert(texts(pieces@) =~= with_piece(was, index as int, text@));
    }
}

impl PageReader {
    fn close(&mut self)
        ensures
            final(self)@ == old(self)@.close(),
    {
        if let Some(node) = self.current.take() {
            let ghost before = self@.nodes;
            self.nodes.push(node);
            assert(self@.nodes =~= before.push(node@));
        }
    }

    fn open(&mut self, rest: &Vec<char>)
        ensures
            final(self)@ == old(self)@.open(rest@),
    {
        self.close();
        let reference = trimmed_chars(rest);
        let node = Node {
            subscripts: split_subscripts(reference.as_str()),
            reference,
            pieces: Vec::new(),
        };
        assert(node@.pieces =~= Seq::empty());
        self.current = Some(node);
    }

    fn piece(&mut self, rest: &Vec<char>)
        ensures
            final(self)@ == old(self)@.piece(rest@),
    {
        let at = match find(rest.as_slice(), '@') {
            Some(at) => at,
            None => return,
        };
        let len = rest.len();
        let index = match number(rest.as_slice(), at) {
            Some(index) => index,
            None => return,
        };
        if index == 0 {
            return;
        }
        let text = text_between(rest.as_slice(), at + 1, len);
        assert(text@ =~= rest@.skip(at + 1));
        if let Some(mut node) = self.current.take() {
            put_piece(&mut node.pieces, index, text);
            self.current = Some(node);
        }
    }

    fn line(&mut self, line: &[char])
        ensures
            final(self)@ == old(self)@.line(line@),
    {
        let len = line.len();
        let end = end_of_trimmed(line, 0, len);
        assert(line@.subrange(0, len as int) =~= line@);
        let line = copied(line, 0, end);
        let line = line.as_slice();
        if is_echo(line) {
            return;
        }
        let begins = find_at_start(line, TAG_ERROR).is_some() || find_at_start(
            line,
            TAG_END,
        ).is_some() || find_at_start(line, TAG_NODE).is_some() || find_at_start(
            line,
            TAG_PIECE,
        ).is_some();
        if let Some(rest) = find_tag(line, TAG_ERROR, false) {
            self.error = Some(trimmed_chars(&rest));
        } else if let Some(rest) = find_tag(line, TAG_END, begins) {
            let n = rest.len();
            assert(rest@.take(n as int) =~= rest@);
            self.reported = number(rest.as_slice(), n);
        } else if let Some(rest) = find_tag(line, TAG_NODE, begins) {
            self.open(&rest);
        } else if let Some(rest) = find_tag(line, TAG_PIECE, begins) {
            self.piece(&rest);
        }
    }
}

/// Parses the tagged output back into nodes.
///
/// Tolerant by design: it reads whatever tagged lines it finds and ignores
/// everything else, so the command echo, the prompt, and any banner IRIS
/// decides to print do not need special handling. An error is taken wherever it
/// stands, but for the line on which the command itself is echoed.
pub fn parse(output: &str, limit: usize) -> (page: Page)
    ensures
        ({
            let want = answer(output@);
            &&& node_states(page.nodes@) == want.nodes
            &&& page.reported is Some == want.reported is Some
            &&& page.reported matches Some(n) ==> want.reported == Some(n as int)
            &&& opt_text(page.error) == want.error
            &&& page.truncated == (want.nodes.len() >= limit)
        }),
{
    let text = strip(chars_of(output).as_slice());
    let lines = split_chars(text.as_slice(), '\n');
    let ghost want = views(lines@);
    let mut reader = PageReader {
        nodes: Vec::new(),
        current: None,
        reported: None,
        error: None,
    };
    assert(reader@ =~= Walk::start());
    let mut i: usize = 0;
    assert(want.take(0) =~= Seq::empty());
    while i < lines.len()
        invariant
            i <= lines@.len(),
            want == views(lines@),
            reader@ == walked(want.take(i as int)),
        decreases lines.len() - i,
    {
        assert(want.take(i + 1).drop_last() =~= want.take(i as int));
        assert(want[i as int] == lines@[i as int]@);
        reader.line(lines[i].as_slice());
        i += 1;
    }
    assert(want.take(i as int) =~= want);
    reader.close();
    let truncated = reader.nodes.len() >= limit;
    Page { nodes: reader.nodes, reported: reader.reported, error: reader.error, truncated }
}

// ---- laws ---------------------------------------------------------------

/// Stripping leaves ordinary text as it is.
pub proof fn ordinary_text_is_left_alone(s: Seq<char>, i: int)
    requires
        0 <= i <= s.len(),
        forall|k: int|
            0 <= k < s.len() ==> #[trigger] s[k] != '\u{1b}' && !no_data(s[k]),
    ensures
        plain_from(s, i) == s.skip(i),
    decreases s.len() - i,
{
    if i < s.len() {
        ordinary_text_is_left_alone(s, i + 1);
        assert(seq![s[i]] + s.skip(i + 1) =~= s.skip(i));
    } else {
        assert(s.skip(i) =~= Seq::empty());
    }
}

/// Nothing that is stripped is left behind.
pub proof fn no_escape_survives(s: Seq<char>, i: int)
    requires
        0 <= i,
    ensures
        forall|k: int|
            0 <= k < plain_from(s, i).len() ==> #[trigger] plain_from(s, i)[k] != '\u{1b}'
                && !no_data(plain_from(s, i)[k]),
    decreases s.len() - i,
{
    if i < s.len() {
        if s[i] == '\u{1b}' {
            let next = escape_end(s, i);
            if i < next <= s.len() {
                no_escape_survives(s, next);
                assert(plain_from(s, i) == plain_from(s, next));
            } else {
                assert(plain_from(s, i) == Seq::<char>::empty());
            }
        } else {
            no_escape_survives(s, i + 1);
            let rest = plain_from(s, i + 1);
            let all = plain_from(s, i);
            assert forall|k: int| 0 <= k < all.len() implies #[trigger] all[k] != '\u{1b}' && !no_data(
                all[k],
            ) by {
                if no_data(s[i]) {
                    assert(all[k] == rest[k]);
                } else {
                    assert(all == seq![s[i]] + rest);
                    assert(all[k] == if k == 0 {
                        s[i]
                    } else {
                        rest[k - 1]
                    });
                }
            }
        }
    }
}

/// A piece stands where its number says, and the pieces before it stay where
/// they were.
pub proof fn a_piece_keeps_its_place(pieces: Seq<Seq<char>>, index: int, text: Seq<char>)
    requires
        index > 0,
    ensures
        with_piece(pieces, index, text)[index - 1] == text,
        forall|i: int|
            0 <= i < pieces.len() && i != index - 1 ==> #[trigger] with_piece(
                pieces,
                index,
                text,
            )[i] == pieces[i],
{
}

} // verus!
