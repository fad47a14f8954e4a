//! Spotting ObjectScript in terminal output.
//!
//! This is a heuristic over whatever happens to be on the screen, not a parser:
//! the terminal has no idea whether a line is ObjectScript, a `zwrite` dump, or
//! a banner.
//!
//! Two tiers of confidence, because the same rule is not safe everywhere:
//!
//! * Everywhere on the row: strings, numbers, globals, `$`-constructs, class
//!   names, and labels with their routine. These are shapes, not words, so they
//!   cannot fire on prose.
//! * Only after an IRIS prompt: commands, the members of objects, operators and
//!   delimiters. `set` is a command on a command line and an ordinary word in a
//!   sentence, and a comma is punctuation far more often than it is a subscript
//!   separator.

use vstd::prelude::*;

use super::cell::Cell;
use crate::text::{
    ascii_alnum, ascii_alpha, ascii_digit, is_alnum, is_alpha, is_digit, lower, lowered,
};

verus! {

/// One highlighted token kind, named after the scope it mirrors in the
/// InterSystems VS Code extension.
#[derive(Clone, Copy, Debug, PartialEq, Eq, Structural)]
pub enum Kind {
    /// A tag, as in the `Foo` of `Foo^ROUTINE`. `COS_Label`.
    Label,
    /// A command word: `set`, `w`, `zwrite`. `COS_Command`.
    Command,
    /// A quoted string, quotes included. `COS_String`.
    Str,
    /// A numeric literal. `COS_Number`.
    Number,
    /// Parentheses, commas, colons. `COS_Delimiter`.
    Delimiter,
    /// `=`, `_`, `'`, and the rest. `COS_Operator`.
    Operator,
    /// `#dim`, `#define`, and `$$$MACRO`. `COS_PreProcessorCommand`.
    PreProcessor,
    /// A system function: a `$name` that is being called. `COS_Function`.
    Function,
    /// A global reference, `^NAME` or `^%NAME`. `COS_Globalvariable`.
    Global,
    /// A system variable: a `$name` that is not. `COS_Systemvariable`.
    SystemVariable,
    /// The class in `##class(Pkg.Cls)`. `COS_ObjectClass`.
    ObjectClass,
    /// The name in `obj.Method(` or `..Method(`, without the dots.
    /// `COS_Objectmethod`.
    ObjectMethod,
    /// The name in `..Property`, the relative reference used inside a method.
    /// `COS_Objectattribute`.
    ObjectAttribute,
    /// The name in `object.Property`. `COS_Objectmember`.
    ObjectMember,
    /// The routine half of `Tag^ROUTINE`, and the target of `do ^ROUTINE`.
    /// `COS_Routine`.
    Routine,
    /// `$$Tag^ROUTINE`. `COS_Extrinsicfunction`.
    Extrinsic,
}

/// A run of columns sharing one kind. `end` is exclusive.
#[derive(Clone, Copy, Debug, PartialEq, Eq, Structural)]
pub struct Span {
    pub start: usize,
    pub end: usize,
    pub kind: Kind,
}

// ---- characters and words -----------------------------------------------

/// A character a name may start with.
pub open spec fn starts_name(c: char) -> bool {
    ascii_alpha(c) || c == '%'
}

/// A character an operator is made of.
pub open spec fn operates(c: char) -> bool {
    c == '=' || c == '+' || c == '-' || c == '*' || c == '/' || c == '\\' || c == '\'' || c == '!'
        || c == '&' || c == '_' || c == '<' || c == '>' || c == '?' || c == '@' || c == '[' || c
        == ']'
}

/// A character a class name, dots included, is made of.
pub open spec fn names_class(c: char) -> bool {
    ascii_alnum(c) || c == '.' || c == '%'
}

/// Command words and the abbreviations IRIS accepts for them.
pub open spec fn command_words() -> Seq<Seq<char>> {
    seq![
        "b"@, "break"@, "c"@, "close"@, "catch"@, "continue"@, "d"@, "do"@, "e"@, "else"@,
        "elseif"@, "f"@, "for"@, "g"@, "goto"@, "h"@, "halt"@, "hang"@, "i"@, "if"@, "j"@, "job"@,
        "k"@, "kill"@, "l"@, "lock"@, "m"@, "merge"@, "n"@, "new"@, "o"@, "open"@, "q"@, "quit"@,
        "r"@, "read"@, "return"@, "s"@, "set"@, "tc"@, "tcommit"@, "throw"@, "tro"@,
        "trollback"@, "try"@, "ts"@, "tstart"@, "u"@, "use"@, "v"@, "view"@, "w"@, "while"@,
        "write"@, "x"@, "xecute"@, "zb"@, "zbreak"@, "zi"@, "zinsert"@, "zk"@, "zkill"@, "zl"@,
        "zload"@, "zn"@, "znspace"@, "zp"@, "zprint"@, "zr"@, "zremove"@, "zs"@, "zsave"@, "zt"@,
        "ztrap"@, "zw"@, "zwrite"@, "zzdump"@, "zzprint"@, "zzwrite"@,
    ]
}

/// Commands whose argument is a routine, so the `^NAME` after one is a routine
/// call rather than a global.
pub open spec fn call_words() -> Seq<Seq<char>> {
    seq!["d"@, "do"@, "g"@, "goto"@, "j"@, "job"@]
}

/// Whether a word is one of the list, however it is cased.
pub open spec fn listed(word: Seq<char>, list: Seq<Seq<char>>) -> bool {
    1 <= word.len() <= 9 && list.contains(lowered(word))
}

// ---- where runs of characters end ---------------------------------------

/// The end of the run of letters and digits at `from`.
pub open spec fn alnum_end(s: Seq<char>, from: int) -> int
    decreases s.len() - from,
{
    if 0 <= from < s.len() && ascii_alnum(s[from]) {
        alnum_end(s, from + 1)
    } else {
        from
    }
}

/// The end of the run of digits at `from`.
pub open spec fn digits_end(s: Seq<char>, from: int) -> int
    decreases s.len() - from,
{
    if 0 <= from < s.len() && ascii_digit(s[from]) {
        digits_end(s, from + 1)
    } else {
        from
    }
}

/// The end of the run of class-name characters at `from`.
pub open spec fn class_end(s: Seq<char>, from: int) -> int
    decreases s.len() - from,
{
    if 0 <= from < s.len() && names_class(s[from]) {
        class_end(s, from + 1)
    } else {
        from
    }
}

/// The end of the run of operator characters at `from`.
pub open spec fn operator_end(s: Seq<char>, from: int) -> int
    decreases s.len() - from,
{
    if 0 <= from < s.len() && operates(s[from]) {
        operator_end(s, from + 1)
    } else {
        from
    }
}

/// The end of the identifier at `from`, or `from` itself when there is none. A
/// leading `%` is part of the name; a later one is not.
pub open spec fn name_end(s: Seq<char>, from: int) -> int {
    if 0 <= from < s.len() && starts_name(s[from]) {
        alnum_end(s, from + 1)
    } else {
        from
    }
}

/// The end of the number at `from`. A `.` only continues it when a digit
/// follows, so the full stop ending a sentence is not swallowed.
pub open spec fn number_end(s: Seq<char>, from: int) -> int {
    let whole = digits_end(s, from);
    if whole + 1 < s.len() && s[whole] == '.' && ascii_digit(s[whole + 1]) {
        digits_end(s, whole + 1)
    } else {
        whole
    }
}

/// The end of a string whose contents go on at `from`, closing quote taken
/// along. A doubled quote is content, and a string that is never closed runs to
/// the end of the row: output is routinely cut off at the right margin.
pub open spec fn string_end(s: Seq<char>, from: int) -> int
    decreases s.len() - from,
{
    if from >= s.len() || from < 0 {
        s.len() as int
    } else if s[from] != '"' {
        string_end(s, from + 1)
    } else if from + 1 < s.len() && s[from + 1] == '"' {
        string_end(s, from + 2)
    } else {
        from + 1
    }
}

/// Where the run of spaces before `at` starts.
pub open spec fn spaces_before(s: Seq<char>, at: int) -> int
    decreases at,
{
    if 0 < at <= s.len() && s[at - 1] == ' ' {
        spaces_before(s, at - 1)
    } else {
        at
    }
}

/// Where the run of letters and digits before `at` starts.
pub open spec fn word_before(s: Seq<char>, at: int) -> int
    decreases at,
{
    if 0 < at <= s.len() && ascii_alnum(s[at - 1]) {
        word_before(s, at - 1)
    } else {
        at
    }
}

// ---- runs end further on, within the row --------------------------------

proof fn alnum_end_is_ahead(s: Seq<char>, from: int)
    requires
        0 <= from <= s.len(),
    ensures
        from <= alnum_end(s, from) <= s.len(),
    decreases s.len() - from,
{
    if from < s.len() {
        alnum_end_is_ahead(s, from + 1);
    }
}

proof fn digits_end_is_ahead(s: Seq<char>, from: int)
    requires
        0 <= from <= s.len(),
    ensures
        from <= digits_end(s, from) <= s.len(),
    decreases s.len() - from,
{
    if from < s.len() {
        digits_end_is_ahead(s, from + 1);
    }
}

proof fn class_end_is_ahead(s: Seq<char>, from: int)
    requires
        0 <= from <= s.len(),
    ensures
        from <= class_end(s, from) <= s.len(),
    decreases s.len() - from,
{
    if from < s.len() {
        class_end_is_ahead(s, from + 1);
    }
}

proof fn operator_end_is_ahead(s: Seq<char>, from: int)
    requires
        0 <= from <= s.len(),
    ensures
        from <= operator_end(s, from) <= s.len(),
    decreases s.len() - from,
{
    if from < s.len() {
        operator_end_is_ahead(s, from + 1);
    }
}

proof fn string_end_is_ahead(s: Seq<char>, from: int)
    requires
        0 <= from <= s.len(),
    ensures
        from <= string_end(s, from) <= s.len(),
    decreases s.len() - from,
{
    if from < s.len() {
        if s[from] != '"' {
            string_end_is_ahead(s, from + 1);
        } else if from + 1 < s.len() && s[from + 1] == '"' {
            string_end_is_ahead(s, from + 2);
        }
    }
}

// ---- the prompt ---------------------------------------------------------

/// A character that may stand in an IRIS prompt before its `>`: `USER`, `%SYS`,
/// and the `TL1:USER` a transaction adds.
pub open spec fn in_prompt(c: char) -> bool {
    ascii_alnum(c) || c == '%' || c == '^' || c == '_' || c == '-' || c == '.' || c == ':'
}

/// The column just past the prompt of which `from` columns have been read.
pub open spec fn prompt_from(s: Seq<char>, from: int) -> Option<usize>
    decreases s.len() - from,
{
    if from < 0 || from >= s.len() {
        None
    } else if s[from] == '>' {
        if from > 0 && ascii_alnum(s[from - 1]) {
            Some((from + 1) as usize)
        } else {
            None
        }
    } else if in_prompt(s[from]) {
        prompt_from(s, from + 1)
    } else {
        None
    }
}

/// The column just past an IRIS prompt that opens the row: prompt characters
/// only, a letter or digit last, then the first `>`.
pub open spec fn prompt(s: Seq<char>) -> Option<usize> {
    prompt_from(s, 0)
}

/// The column at which typed code begins: past the prompt, or past the row when
/// there is none, which switches the command-line rules off.
pub open spec fn code_from(s: Seq<char>) -> int {
    match prompt(s) {
        Some(end) => end as int,
        None => s.len() as int,
    }
}

// ---- tokens -------------------------------------------------------------

/// What starts at a column: the spans found, and where to go on.
pub struct Token {
    pub spans: Seq<Span>,
    pub next: int,
}

/// No span, and on to `next`.
pub open spec fn skip_to(next: int) -> Token {
    Token { spans: Seq::empty(), next }
}

/// One span, and on past it.
pub open spec fn one(start: int, end: int, kind: Kind) -> Token {
    Token { spans: seq![Span { start: start as usize, end: end as usize, kind }], next: end }
}

pub open spec fn at_is(s: Seq<char>, i: int, c: char) -> bool {
    0 <= i < s.len() && s[i] == c
}

/// A `^NAME` is a routine behind a tag or a command that calls one; elsewhere
/// it is a global.
pub open spec fn names_routine(s: Seq<char>, at: int) -> bool {
    let word = spaces_before(s, at);
    ||| at > 0 && (ascii_alnum(s[at - 1]) || s[at - 1] == '%')
    ||| word < at && listed(s.subrange(word_before(s, word), word), call_words())
}

/// A caret: a global, a routine, or the piece delimiter.
pub open spec fn caret(s: Seq<char>, at: int, code: bool) -> Token {
    let end = name_end(s, at + 1);
    if end > at + 1 {
        one(
            at,
            end,
            if names_routine(s, at) {
                Kind::Routine
            } else {
                Kind::Global
            },
        )
    } else if code {
        one(at, at + 1, Kind::Operator)
    } else {
        skip_to(at + 1)
    }
}

/// `$$$MACRO`, `$$Tag`, `$Function(` and `$SystemVariable`.
pub open spec fn dollar(s: Seq<char>, at: int) -> Token {
    let dollars: int = if at_is(s, at + 1, '$') {
        if at_is(s, at + 2, '$') {
            3
        } else {
            2
        }
    } else {
        1
    };
    let end = name_end(s, at + dollars);
    if end <= at + dollars {
        skip_to(at + 1)
    } else if dollars == 3 {
        one(at, end, Kind::PreProcessor)
    } else if dollars == 2 {
        one(at, end, Kind::Extrinsic)
    } else if at_is(s, end, '(') {
        one(at, end, Kind::Function)
    } else {
        one(at, end, Kind::SystemVariable)
    }
}

/// `##class(Pkg.Cls)`, the preprocessor directives, and the modulo operator.
pub open spec fn hash(s: Seq<char>, at: int, code: bool) -> Token {
    let word = name_end(s, at + 2);
    let directive = name_end(s, at + 1);
    if at_is(s, at + 1, '#') && word > at + 2 {
        let keyword = Span { start: at as usize, end: word as usize, kind: Kind::Command };
        if at_is(s, word, '(') {
            let end = class_end(s, word + 1);
            Token {
                spans: if end > word + 1 {
                    seq![
                        keyword,
                        Span {
                            start: (word + 1) as usize,
                            end: end as usize,
                            kind: Kind::ObjectClass,
                        },
                    ]
                } else {
                    seq![keyword]
                },
                next: end,
            }
        } else {
            Token { spans: seq![keyword], next: word }
        }
    } else if code && directive > at + 1 {
        one(at, directive, Kind::PreProcessor)
    } else if code {
        one(at, at + 1, Kind::Operator)
    } else {
        skip_to(at + 1)
    }
}

/// A dot on a command line. `..Prop` stands on its own; `obj.Prop` needs the
/// object. Only the name is coloured, not the dots.
pub open spec fn dot(s: Seq<char>, at: int) -> Token {
    let attribute = at_is(s, at + 1, '.');
    let name = if attribute {
        at + 2
    } else {
        at + 1
    };
    let end = name_end(s, name);
    let anchored = attribute || (at > 0 && (ascii_alnum(s[at - 1]) || s[at - 1] == ')' || s[at - 1]
        == '%'));
    if end > name && anchored {
        one(
            name,
            end,
            if at_is(s, end, '(') {
                Kind::ObjectMethod
            } else if attribute {
                Kind::ObjectAttribute
            } else {
                Kind::ObjectMember
            },
        )
    } else {
        skip_to(at + 1)
    }
}

/// Whether a word ending at `end` is being used as a command rather than as
/// part of an expression. A command may butt straight up against its argument.
pub open spec fn alone(s: Seq<char>, end: int) -> bool {
    end >= s.len() || s[end] == ' ' || s[end] == ':' || s[end] == '"' || s[end] == '^' || s[end]
        == '$' || s[end] == '#' || s[end] == '@' || s[end] == '!'
}

/// A word: a tag if a routine follows, a command on a command line.
pub open spec fn word(s: Seq<char>, at: int, code: bool) -> Token {
    let end = name_end(s, at);
    if at_is(s, end, '^') {
        one(at, end, Kind::Label)
    } else if code && listed(s.subrange(at, end), command_words()) && alone(s, end) {
        one(at, end, Kind::Command)
    } else {
        skip_to(end)
    }
}

/// What starts at column `at`.
pub open spec fn token(s: Seq<char>, at: int, code: bool) -> Token {
    let c = s[at];
    if c == '"' {
        one(at, string_end(s, at + 1), Kind::Str)
    } else if c == '^' {
        caret(s, at, code)
    } else if c == '$' {
        dollar(s, at)
    } else if c == '#' {
        hash(s, at, code)
    } else if c == '.' && code {
        dot(s, at)
    } else if ascii_digit(c) {
        one(at, number_end(s, at), Kind::Number)
    } else if starts_name(c) {
        word(s, at, code)
    } else if code && (c == '(' || c == ')' || c == ',' || c == ':' || c == ';') {
        one(at, at + 1, Kind::Delimiter)
    } else if code && operates(c) {
        one(at, operator_end(s, at + 1), Kind::Operator)
    } else {
        skip_to(at + 1)
    }
}

/// The spans from column `at` on, code beginning at column `code`.
pub open spec fn spans_from(s: Seq<char>, code: int, at: int) -> Seq<Span>
    decreases s.len() - at,
{
    if at < 0 || at >= s.len() {
        Seq::empty()
    } else {
        let t = token(s, at, at >= code);
        if at < t.next <= s.len() {
            t.spans + spans_from(s, code, t.next)
        } else {
            t.spans
        }
    }
}

/// The ObjectScript tokens in a row of text.
pub open spec fn scanned(s: Seq<char>) -> Seq<Span> {
    spans_from(s, code_from(s), 0)
}

/// The characters of a row of cells.
pub open spec fn chars_in(cells: Seq<Cell>) -> Seq<char> {
    cells.map_values(|c: Cell| c.ch)
}

// ---- finding them -------------------------------------------------------

fn is_name_start(c: char) -> (yes: bool)
    ensures
        yes == starts_name(c),
{
    is_alpha(c) || c == '%'
}

fn is_operator(c: char) -> (yes: bool)
    ensures
        yes == operates(c),
{
    matches!(
        c,
        '=' | '+' | '-' | '*' | '/' | '\\' | '\'' | '!' | '&' | '_' | '<' | '>' | '?' | '@' | '['
            | ']'
    )
}

fn is_class_char(c: char) -> (yes: bool)
    ensures
        yes == names_class(c),
{
    is_alnum(c) || c == '.' || c == '%'
}

/// The views of a list of words.
pub open spec fn word_views(list: Seq<&'static str>) -> Seq<Seq<char>> {
    list.map_values(|w: &'static str| w@)
}

fn commands() -> (list: Vec<&'static str>)
    ensures
        word_views(list@) == command_words(),
{
    let list: Vec<&'static str> = vec![
        "b", "break", "c", "close", "catch", "continue", "d", "do", "e", "else", "elseif", "f",
        "for", "g", "goto", "h", "halt", "hang", "i", "if", "j", "job", "k", "kill", "l", "lock",
        "m", "merge", "n", "new", "o", "open", "q", "quit", "r", "read", "return", "s", "set",
        "tc", "tcommit", "throw", "tro", "trollback", "try", "ts", "tstart", "u", "use", "v",
        "view", "w", "while", "write", "x", "xecute", "zb", "zbreak", "zi", "zinsert", "zk",
        "zkill", "zl", "zload", "zn", "znspace", "zp", "zprint", "zr", "zremove", "zs", "zsave",
        "zt", "ztrap", "zw", "zwrite", "zzdump", "zzprint", "zzwrite",
    ];
    assert(word_views(list@) =~= command_words());
    list
}

fn call_commands() -> (list: Vec<&'static str>)
    ensures
        word_views(list@) == call_words(),
{
    let list: Vec<&'static str> = vec!["d", "do", "g", "goto", "j", "job"];
    assert(word_views(list@) =~= call_words());
    list
}

/// Whether the word at `start..end` is `candidate`, however it is cased.
///
/// Compared character by character rather than by lowercasing into a string
/// first: this runs on every identifier of every row.
fn same_word(chars: &[char], start: usize, end: usize, candidate: &str) -> (yes: bool)
    requires
        start <= end <= chars@.len(),
    ensures
        yes == (lowered(chars@.subrange(start as int, end as int)) == candidate@),
{
    let ghost want = lowered(chars@.subrange(start as int, end as int));
    let mut i: usize = start;
    for c in it: candidate.chars()
        invariant
            it.seq() == candidate@,
            i == start + it.index(),
            start <= i <= end <= chars@.len(),
            want == lowered(chars@.subrange(start as int, end as int)),
            forall|k: int| 0 <= k < it.index() ==> want[k] == #[trigger] candidate@[k],
    {
        if i >= end {
            assert(want.len() < candidate@.len());
            return false;
        }
        if lower(chars[i]) != c {
            assert(want[it.index() as int] != candidate@[it.index() as int]);
            return false;
        }
        i += 1;
    }
    if i == end {
        assert(want =~= candidate@);
        true
    } else {
        assert(want.len() > candidate@.len());
        false
    }
}

/// Whether the word at `start..end` is one of the list, however it is cased.
fn word_is(chars: &[char], start: usize, end: usize, list: &Vec<&'static str>) -> (yes: bool)
    requires
        start <= end <= chars@.len(),
    ensures
        yes == listed(chars@.subrange(start as int, end as int), word_views(list@)),
{
    if end == start || end - start > 9 {
        return false;
    }
    let ghost want = lowered(chars@.subrange(start as int, end as int));
    let mut k: usize = 0;
    while k < list.len()
        invariant
            k <= list@.len(),
            start < end <= chars@.len(),
            end - start <= 9,
            want == lowered(chars@.subrange(start as int, end as int)),
            forall|j: int| 0 <= j < k ==> #[trigger] word_views(list@)[j] != want,
        decreases list.len() - k,
    {
        assert(word_views(list@)[k as int] == list@[k as int]@);
        if same_word(chars, start, end, list[k]) {
            assert(word_views(list@)[k as int] == want);
            assert(word_views(list@).contains(want));
            return true;
        }
        k += 1;
    }
    false
}

/// Whether a word is a command or the abbreviation of one.
pub fn is_command(word: &[char]) -> (yes: bool)
    ensures
        yes == listed(word@, command_words()),
{
    assert(word@.subrange(0, word@.len() as int) =~= word@);
    word_is(word, 0, word.len(), &commands())
}

/// End of the run of letters and digits at `from`.
fn find_alnum_end(chars: &[char], from: usize) -> (end: usize)
    requires
        from <= chars@.len(),
    ensures
        end == alnum_end(chars@, from as int),
        from <= end <= chars@.len(),
{
    let mut i: usize = from;
    while i < chars.len() && is_alnum(chars[i])
        invariant
            from <= i <= chars@.len(),
            alnum_end(chars@, from as int) == alnum_end(chars@, i as int),
        decreases chars.len() - i,
    {
        i += 1;
    }
    i
}

/// End of the run of digits at `from`.
fn find_digits_end(chars: &[char], from: usize) -> (end: usize)
    requires
        from <= chars@.len(),
    ensures
        end == digits_end(chars@, from as int),
        from <= end <= chars@.len(),
{
    let mut i: usize = from;
    while i < chars.len() && is_digit(chars[i])
        invariant
            from <= i <= chars@.len(),
            digits_end(chars@, from as int) == digits_end(chars@, i as int),
        decreases chars.len() - i,
    {
        i += 1;
    }
    i
}

/// End of the class name at `from`.
fn find_class_end(chars: &[char], from: usize) -> (end: usize)
    requires
        from <= chars@.len(),
    ensures
        end == class_end(chars@, from as int),
        from <= end <= chars@.len(),
{
    let mut i: usize = from;
    while i < chars.len() && is_class_char(chars[i])
        invariant
            from <= i <= chars@.len(),
            class_end(chars@, from as int) == class_end(chars@, i as int),
        decreases chars.len() - i,
    {
        i += 1;
    }
    i
}

/// End of the run of operator characters at `from`.
fn find_operator_end(chars: &[char], from: usize) -> (end: usize)
    requires
        from <= chars@.len(),
    ensures
        end == operator_end(chars@, from as int),
        from <= end <= chars@.len(),
{
    let mut i: usize = from;
    while i < chars.len() && is_operator(chars[i])
        invariant
            from <= i <= chars@.len(),
            operator_end(chars@, from as int) == operator_end(chars@, i as int),
        decreases chars.len() - i,
    {
        i += 1;
    }
    i
}

fn find_name_end(chars: &[char], from: usize) -> (end: usize)
    requires
        from <= chars@.len(),
    ensures
        end == name_end(chars@, from as int),
        from <= end <= chars@.len(),
{
    if from < chars.len() && is_name_start(chars[from]) {
        find_alnum_end(chars, from + 1)
    } else {
        from
    }
}

fn find_number_end(chars: &[char], from: usize) -> (end: usize)
    requires
        from < chars@.len(),
        ascii_digit(chars@[from as int]),
    ensures
        end == number_end(chars@, from as int),
        from < end <= chars@.len(),
{
    let len = chars.len();
    let whole = find_digits_end(chars, from);
    assert(digits_end(chars@, from as int) == digits_end(chars@, from + 1));
    proof {
        digits_end_is_ahead(chars@, from + 1);
    }
    if whole < len - 1 && chars[whole] == '.' && is_digit(chars[whole + 1]) {
        find_digits_end(chars, whole + 1)
    } else {
        whole
    }
}

/// End of the string starting at `open`, quote included.
fn find_string_end(chars: &[char], open: usize) -> (end: usize)
    requires
        open < chars@.len(),
    ensures
        end == string_end(chars@, open + 1),
        open < end <= chars@.len(),
{
    let len = chars.len();
    let mut i: usize = open + 1;
    while i < len
        invariant
            open < i <= len == chars@.len(),
            string_end(chars@, open + 1) == string_end(chars@, i as int),
        decreases len - i,
    {
        if chars[i] == '"' {
            // ObjectScript escapes a quote by doubling it, so a pair is content
            // and the string carries on.
            if i < len - 1 && chars[i + 1] == '"' {
                i += 2;
                continue;
            }
            return i + 1;
        }
        i += 1;
    }
    chars.len()
}

fn has(chars: &[char], i: usize, c: char) -> (yes: bool)
    ensures
        yes == at_is(chars@, i as int, c),
{
    i < chars.len() && chars[i] == c
}

/// Whether the `^` at `at` is behind a tag, or the argument of `do`, `goto` or
/// `job`.
fn follows_call(chars: &[char], at: usize) -> (yes: bool)
    requires
        at < chars@.len(),
    ensures
        yes == names_routine(chars@, at as int),
{
    if at > 0 && (is_alnum(chars[at - 1]) || chars[at - 1] == '%') {
        return true;
    }
    let mut end: usize = at;
    while end > 0 && chars[end - 1] == ' '
        invariant
            end <= at < chars@.len(),
            spaces_before(chars@, at as int) == spaces_before(chars@, end as int),
        decreases end,
    {
        end -= 1;
    }
    if end == at {
        return false;
    }
    let mut start: usize = end;
    while start > 0 && is_alnum(chars[start - 1])
        invariant
            start <= end < chars@.len(),
            word_before(chars@, end as int) == word_before(chars@, start as int),
        decreases start,
    {
        start -= 1;
    }
    word_is(chars, start, end, &call_commands())
}

fn push(spans: &mut Vec<Span>, start: usize, end: usize, kind: Kind)
    ensures
        final(spans)@ == old(spans)@ + one(start as int, end as int, kind).spans,
{
    spans.push(Span { start, end, kind });
    assert(spans@ =~= old(spans)@ + one(start as int, end as int, kind).spans);
}

fn scan_caret(chars: &[char], at: usize, code: bool, spans: &mut Vec<Span>) -> (next: usize)
    requires
        at < chars@.len(),
    ensures
        next == caret(chars@, at as int, code).next,
        final(spans)@ == old(spans)@ + caret(chars@, at as int, code).spans,
        at < next <= chars@.len(),
{
    let len = chars.len();
    let end = find_name_end(chars, at + 1);
    if end > at + 1 {
        let kind = if follows_call(chars, at) {
            Kind::Routine
        } else {
            Kind::Global
        };
        push(spans, at, end, kind);
        return end;
    }
    // A lone `^` is the piece delimiter, or the `^` operator.
    if code {
        push(spans, at, at + 1, Kind::Operator);
    } else {
        assert(spans@ =~= old(spans)@ + Seq::<Span>::empty());
    }
    at + 1
}

fn scan_dollar(chars: &[char], at: usize, spans: &mut Vec<Span>) -> (next: usize)
    requires
        at < chars@.len(),
    ensures
        next == dollar(chars@, at as int).next,
        final(spans)@ == old(spans)@ + dollar(chars@, at as int).spans,
        at < next <= chars@.len(),
{
    let len = chars.len();
    let name = if has(chars, at + 1, '$') {
        if at + 1 < len - 1 && chars[at + 2] == '$' {
            at + 3
        } else {
            at + 2
        }
    } else {
        at + 1
    };
    let end = find_name_end(chars, name);
    if end <= name {
        assert(spans@ =~= old(spans)@ + Seq::<Span>::empty());
        return at + 1;
    }
    // Being called is what separates `$piece(x,"^")` from `$horolog`.
    let kind = if name - at == 3 {
        Kind::PreProcessor
    } else if name - at == 2 {
        Kind::Extrinsic
    } else if has(chars, end, '(') {
        Kind::Function
    } else {
        Kind::SystemVariable
    };
    push(spans, at, end, kind);
    end
}

fn scan_hash(chars: &[char], at: usize, code: bool, spans: &mut Vec<Span>) -> (next: usize)
    requires
        at < chars@.len(),
    ensures
        next == hash(chars@, at as int, code).next,
        final(spans)@ == old(spans)@ + hash(chars@, at as int, code).spans,
        at < next <= chars@.len(),
{
    let len = chars.len();
    if has(chars, at + 1, '#') {
        let word = find_name_end(chars, at + 2);
        if word > at + 2 {
            // `##class` and `##super` are keywords; the class name they take is
            // dotted, so it is read separately from an ordinary identifier.
            push(spans, at, word, Kind::Command);
            if has(chars, word, '(') {
                let end = find_class_end(chars, word + 1);
                if end > word + 1 {
                    push(spans, word + 1, end, Kind::ObjectClass);
                }
                assert(spans@ =~= old(spans)@ + hash(chars@, at as int, code).spans);
                return end;
            }
            return word;
        }
    }
    if code {
        let end = find_name_end(chars, at + 1);
        if end > at + 1 {
            push(spans, at, end, Kind::PreProcessor);
            return end;
        }
        // `#` on its own is the modulo operator, and the argument of `w #`.
        push(spans, at, at + 1, Kind::Operator);
    } else {
        assert(spans@ =~= old(spans)@ + Seq::<Span>::empty());
    }
    at + 1
}

fn scan_dot(chars: &[char], at: usize, spans: &mut Vec<Span>) -> (next: usize)
    requires
        at < chars@.len(),
    ensures
        next == dot(chars@, at as int).next,
        final(spans)@ == old(spans)@ + dot(chars@, at as int).spans,
        at < next <= chars@.len(),
{
    let len = chars.len();
    let attribute = has(chars, at + 1, '.');
    let name = if attribute {
        at + 2
    } else {
        at + 1
    };
    let end = find_name_end(chars, name);
    let anchored = attribute || (at > 0 && (is_alnum(chars[at - 1]) || chars[at - 1] == ')'
        || chars[at - 1] == '%'));
    if end > name && anchored {
        let kind = if has(chars, end, '(') {
            Kind::ObjectMethod
        } else if attribute {
            Kind::ObjectAttribute
        } else {
            Kind::ObjectMember
        };
        push(spans, name, end, kind);
        end
    } else {
        assert(spans@ =~= old(spans)@ + Seq::<Span>::empty());
        at + 1
    }
}

/// Whether a word ending at `end` is being used as a command.
fn stands_alone(chars: &[char], end: usize) -> (yes: bool)
    ensures
        yes == alone(chars@, end as int),
{
    end >= chars.len() || matches!(chars[end], ' ' | ':' | '"' | '^' | '$' | '#' | '@' | '!')
}

fn scan_word(chars: &[char], at: usize, code: bool, spans: &mut Vec<Span>) -> (next: usize)
    requires
        at < chars@.len(),
        starts_name(chars@[at as int]),
    ensures
        next == word(chars@, at as int, code).next,
        final(spans)@ == old(spans)@ + word(chars@, at as int, code).spans,
        at < next <= chars@.len(),
{
    let len = chars.len();
    let end = find_name_end(chars, at);
    proof {
        alnum_end_is_ahead(chars@, at + 1);
    }
    if has(chars, end, '^') {
        // The tag of `Tag^ROUTINE`.
        push(spans, at, end, Kind::Label);
    } else if code && word_is(chars, at, end, &commands()) && stands_alone(chars, end) {
        push(spans, at, end, Kind::Command);
    } else {
        assert(spans@ =~= old(spans)@ + Seq::<Span>::empty());
    }
    end
}

fn scan_token(chars: &[char], at: usize, code: bool, spans: &mut Vec<Span>) -> (next: usize)
    requires
        at < chars@.len(),
    ensures
        next == token(chars@, at as int, code).next,
        final(spans)@ == old(spans)@ + token(chars@, at as int, code).spans,
        at < next <= chars@.len(),
{
    let len = chars.len();
    let c = chars[at];
    if c == '"' {
        let end = find_string_end(chars, at);
        push(spans, at, end, Kind::Str);
        end
    } else if c == '^' {
        scan_caret(chars, at, code, spans)
    } else if c == '$' {
        scan_dollar(chars, at, spans)
    } else if c == '#' {
        scan_hash(chars, at, code, spans)
    } else if c == '.' && code {
        scan_dot(chars, at, spans)
    } else if is_digit(c) {
        let end = find_number_end(chars, at);
        push(spans, at, end, Kind::Number);
        end
    } else if is_name_start(c) {
        scan_word(chars, at, code, spans)
    } else if code && matches!(c, '(' | ')' | ',' | ':' | ';') {
        push(spans, at, at + 1, Kind::Delimiter);
        at + 1
    } else if code && is_operator(c) {
        let end = find_operator_end(chars, at + 1);
        push(spans, at, end, Kind::Operator);
        end
    } else {
        assert(spans@ =~= old(spans)@ + Seq::<Span>::empty());
        at + 1
    }
}

/// Finds the ObjectScript tokens in a row of text.
///
/// Strings win over everything: a `^` inside quotes is a piece delimiter, not a
/// global, which matters because ERP data is full of `"a^b^c"`.
pub fn scan_chars(chars: &[char]) -> (spans: Vec<Span>)
    ensures
        spans@ == scanned(chars@),
{
    let code = match prompt_end(chars) {
        Some(end) => end,
        None => chars.len(),
    };
    let mut spans: Vec<Span> = Vec::new();
    let mut i: usize = 0;
    while i < chars.len()
        invariant
            i <= chars@.len(),
            code == code_from(chars@),
            spans@ + spans_from(chars@, code as int, i as int) =~= scanned(chars@),
        decreases chars.len() - i,
    {
        i = scan_token(chars, i, i >= code, &mut spans);
    }
    spans
}

/// Finds the ObjectScript tokens in one row of cells.
pub fn scan(cells: &[Cell]) -> (spans: Vec<Span>)
    ensures
        spans@ == scanned(chars_in(cells@)),
{
    let mut chars: Vec<char> = Vec::with_capacity(cells.len());
    let mut i: usize = 0;
    while i < cells.len()
        invariant
            i <= cells@.len(),
            chars@ =~= chars_in(cells@).take(i as int),
        decreases cells.len() - i,
    {
        chars.push(cells[i].ch);
        i += 1;
    }
    assert(chars@ =~= chars_in(cells@));
    scan_chars(chars.as_slice())
}

fn is_prompt_char(c: char) -> (yes: bool)
    ensures
        yes == in_prompt(c),
{
    is_alnum(c) || matches!(c, '%' | '^' | '_' | '-' | '.' | ':')
}

/// Column just past an IRIS prompt on this row, or `None` when there is not
/// one.
///
/// Shared with line editing: the same test decides whether a row is a command
/// line for colouring and whether Home, End and Up belong to the line being
/// typed rather than to IRIS.
///
/// The first `>` decides the row either way: it is not itself a prompt
/// character, so a head that fails there still contains whatever spoiled it
/// when a later `>` looks back over the same columns.
pub fn prompt_end(chars: &[char]) -> (end: Option<usize>)
    ensures
        end == prompt(chars@),
        end matches Some(col) ==> 0 < col <= chars@.len(),
{
    let mut i: usize = 0;
    while i < chars.len()
        invariant
            i <= chars@.len(),
            prompt(chars@) == prompt_from(chars@, i as int),
        decreases chars.len() - i,
    {
        let ch = chars[i];
        if ch == '>' {
            if i > 0 && is_alnum(chars[i - 1]) {
                return Some(i + 1);
            }
            return None;
        }
        if !is_prompt_char(ch) {
            return None;
        }
        i += 1;
    }
    None
}

/// The same test over a row of cells, so a caller holding those does not have
/// to collect them into characters to ask.
pub fn prompt_end_of(cells: &[Cell]) -> (end: Option<usize>)
    ensures
        end == prompt(chars_in(cells@)),
        end matches Some(col) ==> 0 < col <= cells@.len(),
{
    let ghost s = chars_in(cells@);
    let mut i: usize = 0;
    while i < cells.len()
        invariant
            i <= cells@.len(),
            s == chars_in(cells@),
            prompt(s) == prompt_from(s, i as int),
        decreases cells.len() - i,
    {
        let ch = cells[i].ch;
        assert(s[i as int] == ch);
        if ch == '>' {
            if i > 0 {
                assert(s[i - 1] == cells@[i - 1].ch);
            }
            if i > 0 && is_alnum(cells[i - 1].ch) {
                return Some(i + 1);
            }
            return None;
        }
        if !is_prompt_char(ch) {
            return None;
        }
        i += 1;
    }
    None
}

// ---- laws ---------------------------------------------------------------

/// Whether a span stands in a row of `len` columns at or after `from`.
pub open spec fn fits(span: Span, from: int, len: int) -> bool {
    from <= span.start < span.end <= len
}

/// Whether a kind of token is only found on a command line.
pub open spec fn only_on_command_lines(kind: Kind) -> bool {
    kind == Kind::Delimiter || kind == Kind::Operator || kind == Kind::ObjectMethod || kind
        == Kind::ObjectAttribute || kind == Kind::ObjectMember
}

/// What holds of a run of spans: each in its place and behind the one before.
pub open spec fn in_order(spans: Seq<Span>, from: int, len: int, code: int) -> bool {
    &&& forall|i: int| 0 <= i < spans.len() ==> fits(#[trigger] spans[i], from, len)
    &&& forall|i: int, j: int|
        0 <= i < j < spans.len() ==> (#[trigger] spans[i]).end <= (#[trigger] spans[j]).start
    &&& forall|i: int|
        0 <= i < spans.len() && only_on_command_lines((#[trigger] spans[i]).kind)
            ==> spans[i].start >= code
}

proof fn a_token_is_in_order(s: Seq<char>, at: int, code: int)
    requires
        0 <= at < s.len(),
        s.len() <= usize::MAX,
    ensures
        ({
            let t = token(s, at, at >= code);
            &&& at < t.next <= s.len()
            &&& in_order(t.spans, at, t.next, code)
        }),
{
    alnum_end_is_ahead(s, at + 1);
    digits_end_is_ahead(s, at + 1);
    operator_end_is_ahead(s, at + 1);
    string_end_is_ahead(s, at + 1);
    let whole = digits_end(s, at);
    if ascii_digit(s[at]) && whole + 1 < s.len() {
        digits_end_is_ahead(s, whole + 1);
    }
    if at + 2 <= s.len() {
        alnum_end_is_ahead(s, at + 2);
    }
    if at + 3 <= s.len() {
        alnum_end_is_ahead(s, at + 3);
    }
    if at + 4 <= s.len() {
        alnum_end_is_ahead(s, at + 4);
    }
    let keyword = name_end(s, at + 2);
    if at_is(s, keyword, '(') {
        class_end_is_ahead(s, keyword + 1);
    }
}

proof fn spans_are_in_order_from(s: Seq<char>, code: int, at: int)
    requires
        0 <= at <= s.len(),
        s.len() <= usize::MAX,
    ensures
        in_order(spans_from(s, code, at), at, s.len() as int, code),
    decreases s.len() - at,
{
    if at < s.len() {
        a_token_is_in_order(s, at, code);
        let t = token(s, at, at >= code);
        spans_are_in_order_from(s, code, t.next);
        let rest = spans_from(s, code, t.next);
        let all = spans_from(s, code, at);
        assert(all == t.spans + rest);
        let n = t.spans.len() as int;
        assert forall|i: int| 0 <= i < all.len() implies fits(
            #[trigger] all[i],
            at,
            s.len() as int,
        ) && (only_on_command_lines(all[i].kind) ==> all[i].start >= code) by {
            if i < n {
                assert(all[i] == t.spans[i]);
            } else {
                assert(all[i] == rest[i - n]);
            }
        }
        assert forall|i: int, j: int| 0 <= i < j < all.len() implies (#[trigger] all[i]).end <= (
        #[trigger] all[j]).start by {
            if i < n {
                assert(all[i] == t.spans[i]);
                assert(fits(t.spans[i], at, t.next));
            } else {
                assert(all[i] == rest[i - n]);
            }
            if j < n {
                assert(all[j] == t.spans[j]);
            } else {
                assert(all[j] == rest[j - n]);
                assert(fits(rest[j - n], t.next, s.len() as int));
            }
        }
    }
}

/// The spans of a row come in order, none empty, none overlapping another and
/// none past the row; and without a prompt before it no column is taken for
/// punctuation, an operator or a member.
pub proof fn spans_are_in_order(s: Seq<char>)
    requires
        s.len() <= usize::MAX,
    ensures
        in_order(scanned(s), 0, s.len() as int, code_from(s)),
{
    spans_are_in_order_from(s, code_from(s), 0);
}

/// Whether a character has to do with code wherever it stands.
pub open spec fn marks_code(c: char) -> bool {
    c == '"' || c == '^' || c == '$' || c == '#' || ascii_digit(c)
}

/// Prose is left alone: on a row without a prompt, what holds no number and no
/// mark of code is not coloured at all, whatever words are in it.
pub proof fn prose_is_not_coloured(s: Seq<char>)
    requires
        prompt(s) is None,
        forall|i: int| 0 <= i < s.len() ==> !marks_code(#[trigger] s[i]),
    ensures
        scanned(s) == Seq::<Span>::empty(),
{
    no_spans_in_prose(s, 0);
}

proof fn no_spans_in_prose(s: Seq<char>, at: int)
    requires
        0 <= at,
        forall|i: int| 0 <= i < s.len() ==> !marks_code(#[trigger] s[i]),
    ensures
        spans_from(s, s.len() as int, at) == Seq::<Span>::empty(),
    decreases s.len() - at,
{
    if at < s.len() {
        assert(!marks_code(s[at]));
        if starts_name(s[at]) {
            alnum_end_is_ahead(s, at + 1);
            let end = name_end(s, at);
            if end < s.len() {
                assert(!marks_code(s[end]));
            }
        }
        let t = token(s, at, false);
        assert(t.spans =~= Seq::<Span>::empty());
        if at < t.next <= s.len() {
            no_spans_in_prose(s, t.next);
            assert(t.spans + Seq::<Span>::empty() =~= Seq::<Span>::empty());
        }
    }
}

} // verus!
