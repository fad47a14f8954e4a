//! What is coloured, shape by shape, with the rows written out.

use vstd::prelude::*;

use super::syntax::{
    alnum_end, call_words, class_end, code_from, command_words, digits_end, listed, operates,
    operator_end, prompt, prompt_from, scanned, spans_from, string_end, token, Kind, Span,
};
use crate::text::{ascii_alnum, ascii_alpha, ascii_digit, lowered};

verus! {

// ---- where runs end -----------------------------------------------------

proof fn alnum_run(s: Seq<char>, from: int, to: int)
    requires
        0 <= from <= to <= s.len(),
        forall|i: int| from <= i < to ==> ascii_alnum(#[trigger] s[i]),
        to < s.len() ==> !ascii_alnum(s[to]),
    ensures
        alnum_end(s, from) == to,
    decreases to - from,
{
    if from < to {
        alnum_run(s, from + 1, to);
    }
}

proof fn digit_run(s: Seq<char>, from: int, to: int)
    requires
        0 <= from <= to <= s.len(),
        forall|i: int| from <= i < to ==> ascii_digit(#[trigger] s[i]),
        to < s.len() ==> !ascii_digit(s[to]),
    ensures
        digits_end(s, from) == to,
    decreases to - from,
{
    if from < to {
        digit_run(s, from + 1, to);
    }
}

proof fn class_run(s: Seq<char>, from: int, to: int)
    requires
        0 <= from <= to <= s.len(),
        forall|i: int|
            from <= i < to ==> ascii_alnum(#[trigger] s[i]) || s[i] == '.' || s[i] == '%',
        to < s.len() ==> s[to] == ')',
    ensures
        class_end(s, from) == to,
    decreases to - from,
{
    if from < to {
        class_run(s, from + 1, to);
    }
}

proof fn operator_run(s: Seq<char>, from: int, to: int)
    requires
        0 <= from <= to <= s.len(),
        forall|i: int| from <= i < to ==> operates(#[trigger] s[i]),
        to < s.len() ==> !operates(s[to]),
    ensures
        operator_end(s, from) == to,
    decreases to - from,
{
    if from < to {
        operator_run(s, from + 1, to);
    }
}

proof fn string_run(s: Seq<char>, from: int, to: int)
    requires
        0 <= from <= to < s.len(),
        forall|i: int| from <= i < to ==> #[trigger] s[i] != '"',
        s[to] == '"',
        to + 1 < s.len() ==> s[to + 1] != '"',
    ensures
        string_end(s, from) == to + 1,
    decreases to - from,
{
    if from < to {
        string_run(s, from + 1, to);
    }
}

proof fn unclosed_run(s: Seq<char>, from: int)
    requires
        0 <= from <= s.len(),
        forall|i: int| from <= i < s.len() ==> #[trigger] s[i] != '"',
    ensures
        string_end(s, from) == s.len(),
    decreases s.len() - from,
{
    if from < s.len() {
        unclosed_run(s, from + 1);
    }
}

// ---- the prompt ---------------------------------------------------------

/// A word of letters and digits that begins with a letter.
pub open spec fn is_word(s: Seq<char>) -> bool {
    &&& s.len() > 0
    &&& ascii_alpha(s[0])
    &&& forall|i: int| 0 <= i < s.len() ==> ascii_alnum(#[trigger] s[i])
}

/// A row that a prompt opens, with something typed behind it.
pub open spec fn typed_at(name: Seq<char>, code: Seq<char>) -> Seq<char> {
    name + seq!['>'] + code
}

proof fn reading_a_prompt(s: Seq<char>, from: int, at: int)
    requires
        0 <= from <= at < s.len(),
        s.len() <= usize::MAX,
        at > 0,
        forall|i: int| 0 <= i < at ==> ascii_alnum(#[trigger] s[i]),
        s[at] == '>',
    ensures
        prompt_from(s, from) == Some((at + 1) as usize),
    decreases at - from,
{
    if from < at {
        assert(ascii_alnum(s[from]));
        reading_a_prompt(s, from + 1, at);
    } else {
        assert(ascii_alnum(s[at - 1]));
    }
}

/// A namespace and a `>` at the start of a row are a prompt, and what is typed
/// begins behind the `>`.
pub proof fn a_namespace_is_a_prompt(name: Seq<char>, code: Seq<char>)
    requires
        is_word(name),
        name.len() + code.len() < usize::MAX,
    ensures
        prompt(typed_at(name, code)) == Some((name.len() + 1) as usize),
{
    let s = typed_at(name, code);
    assert forall|i: int| 0 <= i < name.len() implies ascii_alnum(#[trigger] s[i]) by {
        assert(s[i] == name[i]);
    }
    reading_a_prompt(s, 0, name.len() as int);
}

/// Words with a blank between them are no prompt, whatever follows.
pub proof fn a_sentence_is_no_prompt(name: Seq<char>, rest: Seq<char>)
    requires
        is_word(name),
    ensures
        prompt(name + seq![' '] + rest) is None,
{
    let s = name + seq![' '] + rest;
    no_prompt_past_a_blank(s, 0, name.len() as int);
}

proof fn no_prompt_past_a_blank(s: Seq<char>, from: int, at: int)
    requires
        0 <= from <= at < s.len(),
        s[at] == ' ',
        forall|i: int| 0 <= i < at ==> #[trigger] s[i] != '>',
    ensures
        prompt_from(s, from) is None,
    decreases at - from,
{
    if from < at {
        no_prompt_past_a_blank(s, from + 1, at);
    }
}

/// The prompt itself is not coloured: the spans of the row are those of what is
/// typed.
proof fn the_prompt_is_not_coloured(name: Seq<char>, code: Seq<char>)
    requires
        is_word(name),
        name.len() + code.len() < usize::MAX,
    ensures
        ({
            let s = typed_at(name, code);
            let n = name.len() + 1;
            &&& code_from(s) == n
            &&& scanned(s) == spans_from(s, n as int, n as int)
        }),
{
    let s = typed_at(name, code);
    let n = name.len() as int;
    a_namespace_is_a_prompt(name, code);
    assert(s[0] == name[0] && s[n] == '>');
    assert forall|i: int| 1 <= i < n implies ascii_alnum(#[trigger] s[i]) by {
        assert(s[i] == name[i]);
    }
    alnum_run(s, 1, n);
    let t = token(s, 0, false);
    assert(t.spans =~= Seq::<Span>::empty() && t.next == n);
    let u = token(s, n, false);
    assert(u.spans =~= Seq::<Span>::empty() && u.next == n + 1);
    let rest = spans_from(s, n + 1, n + 1);
    assert(spans_from(s, n + 1, n) =~= rest);
    assert(spans_from(s, n + 1, 0) =~= rest);
}

// ---- commands -----------------------------------------------------------

/// The commands of the language and the abbreviations it accepts for them.
pub open spec fn language_commands() -> Seq<Seq<char>> {
    seq![
        "b"@, "break"@, "c"@, "close"@, "catch"@, "continue"@, "d"@, "do"@, "e"@, "else"@,
        "elseif"@, "f"@, "for"@, "g"@, "goto"@, "h"@, "halt"@, "hang"@, "i"@, "if"@, "j"@,
        "job"@, "k"@, "kill"@, "l"@, "lock"@, "m"@, "merge"@, "n"@, "new"@, "o"@, "open"@, "q"@,
        "quit"@, "r"@, "read"@, "return"@, "s"@, "set"@, "tc"@, "tcommit"@, "throw"@, "tro"@,
        "trollback"@, "try"@, "ts"@, "tstart"@, "u"@, "use"@, "v"@, "view"@, "w"@, "while"@,
        "write"@, "x"@, "xecute"@, "zb"@, "zbreak"@, "zi"@, "zinsert"@, "zk"@, "zkill"@, "zl"@,
        "zload"@, "zn"@, "znspace"@, "zp"@, "zprint"@, "zr"@, "zremove"@, "zs"@, "zsave"@,
        "zt"@, "ztrap"@, "zw"@, "zwrite"@, "zzdump"@, "zzprint"@, "zzwrite"@,
    ]
}

proof fn lengths_from_0()
    ensures
        "b"@.len() == 1,
        "break"@.len() == 5,
        "c"@.len() == 1,
        "close"@.len() == 5,
        "catch"@.len() == 5,
        "continue"@.len() == 8,
        "d"@.len() == 1,
        "do"@.len() == 2,
        "e"@.len() == 1,
        "else"@.len() == 4,
{
    reveal_strlit("b");
    reveal_strlit("break");
    reveal_strlit("c");
    reveal_strlit("close");
    reveal_strlit("catch");
    reveal_strlit("continue");
    reveal_strlit("d");
    reveal_strlit("do");
    reveal_strlit("e");
    reveal_strlit("else");
}

proof fn lengths_from_10()
    ensures
        "elseif"@.len() == 6,
        "f"@.len() == 1,
        "for"@.len() == 3,
        "g"@.len() == 1,
        "goto"@.len() == 4,
        "h"@.len() == 1,
        "halt"@.len() == 4,
        "hang"@.len() == 4,
        "i"@.len() == 1,
        "if"@.len() == 2,
{
    reveal_strlit("elseif");
    reveal_strlit("f");
    reveal_strlit("for");
    reveal_strlit("g");
    reveal_strlit("goto");
    reveal_strlit("h");
    reveal_strlit("halt");
    reveal_strlit("hang");
    reveal_strlit("i");
    reveal_strlit("if");
}

proof fn lengths_from_20()
    ensures
        "j"@.len() == 1,
        "job"@.len() == 3,
        "k"@.len() == 1,
        "kill"@.len() == 4,
        "l"@.len() == 1,
        "lock"@.len() == 4,
        "m"@.len() == 1,
        "merge"@.len() == 5,
        "n"@.len() == 1,
        "new"@.len() == 3,
{
    reveal_strlit("j");
    reveal_strlit("job");
    reveal_strlit("k");
    reveal_strlit("kill");
    reveal_strlit("l");
    reveal_strlit("lock");
    reveal_strlit("m");
    reveal_strlit("merge");
    reveal_strlit("n");
    reveal_strlit("new");
}

proof fn lengths_from_30()
    ensures
        "o"@.len() == 1,
        "open"@.len() == 4,
        "q"@.len() == 1,
        "quit"@.len() == 4,
        "r"@.len() == 1,
        "read"@.len() == 4,
        "return"@.len() == 6,
        "s"@.len() == 1,
        "set"@.len() == 3,
        "tc"@.len() == 2,
{
    reveal_strlit("o");
    reveal_strlit("open");
    reveal_strlit("q");
    reveal_strlit("quit");
    reveal_strlit("r");
    reveal_strlit("read");
    reveal_strlit("return");
    reveal_strlit("s");
    reveal_strlit("set");
    reveal_strlit("tc");
}

proof fn lengths_from_40()
    ensures
        "tcommit"@.len() == 7,
        "throw"@.len() == 5,
        "tro"@.len() == 3,
        "trollback"@.len() == 9,
        "try"@.len() == 3,
        "ts"@.len() == 2,
        "tstart"@.len() == 6,
        "u"@.len() == 1,
        "use"@.len() == 3,
        "v"@.len() == 1,
{
    reveal_strlit("tcommit");
    reveal_strlit("throw");
    reveal_strlit("tro");
    reveal_strlit("trollback");
    reveal_strlit("try");
    reveal_strlit("ts");
    reveal_strlit("tstart");
    reveal_strlit("u");
    reveal_strlit("use");
    reveal_strlit("v");
}

proof fn lengths_from_50()
    ensures
        "view"@.len() == 4,
        "w"@.len() == 1,
        "while"@.len() == 5,
        "write"@.len() == 5,
        "x"@.len() == 1,
        "xecute"@.len() == 6,
        "zb"@.len() == 2,
        "zbreak"@.len() == 6,
        "zi"@.len() == 2,
        "zinsert"@.len() == 7,
{
    reveal_strlit("view");
    reveal_strlit("w");
    reveal_strlit("while");
    reveal_strlit("write");
    reveal_strlit("x");
    reveal_strlit("xecute");
    reveal_strlit("zb");
    reveal_strlit("zbreak");
    reveal_strlit("zi");
    reveal_strlit("zinsert");
}

proof fn lengths_from_60()
    ensures
        "zk"@.len() == 2,
        "zkill"@.len() == 5,
        "zl"@.len() == 2,
        "zload"@.len() == 5,
        "zn"@.len() == 2,
        "znspace"@.len() == 7,
        "zp"@.len() == 2,
        "zprint"@.len() == 6,
        "zr"@.len() == 2,
        "zremove"@.len() == 7,
{
    reveal_strlit("zk");
    reveal_strlit("zkill");
    reveal_strlit("zl");
    reveal_strlit("zload");
    reveal_strlit("zn");
    reveal_strlit("znspace");
    reveal_strlit("zp");
    reveal_strlit("zprint");
    reveal_strlit("zr");
    reveal_strlit("zremove");
}

proof fn lengths_from_70()
    ensures
        "zs"@.len() == 2,
        "zsave"@.len() == 5,
        "zt"@.len() == 2,
        "ztrap"@.len() == 5,
        "zw"@.len() == 2,
        "zwrite"@.len() == 6,
        "zzdump"@.len() == 6,
        "zzprint"@.len() == 7,
        "zzwrite"@.len() == 7,
{
    reveal_strlit("zs");
    reveal_strlit("zsave");
    reveal_strlit("zt");
    reveal_strlit("ztrap");
    reveal_strlit("zw");
    reveal_strlit("zwrite");
    reveal_strlit("zzdump");
    reveal_strlit("zzprint");
    reveal_strlit("zzwrite");
}

proof fn every_command_is_short(k: int)
    requires
        0 <= k < language_commands().len(),
    ensures
        1 <= language_commands()[k].len() <= 9,
{
    lengths_from_0();
    lengths_from_10();
    lengths_from_20();
    lengths_from_30();
    lengths_from_40();
    lengths_from_50();
    lengths_from_60();
    lengths_from_70();
}

/// Every command of the language, and every abbreviation, is recognised however
/// it is cased, and nothing else is.
pub proof fn every_command_is_recognised(word: Seq<char>)
    ensures
        listed(word, command_words()) == language_commands().contains(lowered(word)),
{
    assert(command_words() =~= language_commands());
    if language_commands().contains(lowered(word)) {
        let k = choose|k: int|
            0 <= k < language_commands().len() && language_commands()[k] == lowered(word);
        every_command_is_short(k);
    }
}

/// A command typed at a prompt is coloured from its first letter to its last, up
/// to the blank behind it or the end of the row.
pub proof fn a_command_is_coloured(name: Seq<char>, word: Seq<char>, rest: Seq<char>)
    requires
        is_word(name),
        is_word(word),
        language_commands().contains(lowered(word)),
        rest.len() > 0 ==> rest[0] == ' ',
        name.len() + word.len() + rest.len() < usize::MAX,
    ensures
        ({
            let spans = scanned(typed_at(name, word + rest));
            let n = name.len() + 1;
            &&& spans.len() > 0
            &&& spans[0] == (Span {
                start: n as usize,
                end: (n + word.len()) as usize,
                kind: Kind::Command,
            })
        }),
{
    let s = typed_at(name, word + rest);
    let n = (name.len() + 1) as int;
    let end = n + word.len();
    the_prompt_is_not_coloured(name, word + rest);
    every_command_is_recognised(word);
    assert forall|i: int| n <= i < end implies ascii_alnum(#[trigger] s[i]) by {
        assert(s[i] == word[i - n]);
    }
    assert(s[n] == word[0]);
    if rest.len() > 0 {
        assert(s[end] == rest[0]);
    }
    alnum_run(s, n + 1, end);
    assert(s.subrange(n, end) =~= word);
    first_token(s, n, n);
}

/// A word that is no command is not coloured as one, and nor is a command where
/// nothing was typed at a prompt.
pub proof fn other_words_are_not_commands(name: Seq<char>, word: Seq<char>, rest: Seq<char>)
    requires
        is_word(name),
        is_word(word),
        !language_commands().contains(lowered(word)),
        rest.len() > 0 ==> rest[0] == ' ',
        name.len() + word.len() + rest.len() < usize::MAX,
    ensures
        ({
            let s = typed_at(name, word + rest);
            let n = name.len() + 1;
            scanned(s) == spans_from(s, n as int, (n + word.len()) as int)
        }),
{
    let s = typed_at(name, word + rest);
    let n = (name.len() + 1) as int;
    let end = n + word.len();
    the_prompt_is_not_coloured(name, word + rest);
    every_command_is_recognised(word);
    assert forall|i: int| n <= i < end implies ascii_alnum(#[trigger] s[i]) by {
        assert(s[i] == word[i - n]);
    }
    assert(s[n] == word[0]);
    if rest.len() > 0 {
        assert(s[end] == rest[0]);
    }
    alnum_run(s, n + 1, end);
    assert(s.subrange(n, end) =~= word);
    let t = token(s, n, true);
    assert(t.spans =~= Seq::<Span>::empty() && t.next == end);
    assert(spans_from(s, n, n) =~= spans_from(s, n, end));
}

proof fn first_token(s: Seq<char>, code: int, at: int)
    requires
        0 <= at < s.len(),
        token(s, at, at >= code).spans.len() > 0,
    ensures
        spans_from(s, code, at).len() > 0,
        forall|i: int|
            0 <= i < token(s, at, at >= code).spans.len() ==> #[trigger] spans_from(s, code, at)[i]
                == token(s, at, at >= code).spans[i],
        spans_from(s, code, at).len() >= token(s, at, at >= code).spans.len(),
{
}

// ---- shapes that are coloured anywhere ----------------------------------

/// A string is coloured with both its quotes, and one that is never closed to
/// the end of the row.
pub proof fn a_string_is_coloured_whole(text: Seq<char>, rest: Seq<char>)
    requires
        forall|i: int| 0 <= i < text.len() ==> #[trigger] text[i] != '"',
        rest.len() > 0 ==> rest[0] != '"',
        text.len() + rest.len() + 2 <= usize::MAX,
    ensures
        scanned(seq!['"'] + text + seq!['"'] + rest).len() > 0,
        scanned(seq!['"'] + text + seq!['"'] + rest)[0] == (Span {
            start: 0,
            end: (text.len() + 2) as usize,
            kind: Kind::Str,
        }),
        scanned(seq!['"'] + text) == seq![
            Span { start: 0, end: (text.len() + 1) as usize, kind: Kind::Str },
        ],
{
    let s = seq!['"'] + text + seq!['"'] + rest;
    let n = text.len() as int;
    assert forall|i: int| 1 <= i < n + 1 implies #[trigger] s[i] != '"' by {
        assert(s[i] == text[i - 1]);
    }
    if rest.len() > 0 {
        assert(s[n + 2] == rest[0]);
    }
    string_run(s, 1, n + 1);
    first_token(s, code_from(s), 0);
    let t = seq!['"'] + text;
    assert forall|i: int| 1 <= i < t.len() implies #[trigger] t[i] != '"' by {
        assert(t[i] == text[i - 1]);
    }
    unclosed_run(t, 1);
    assert(spans_from(t, code_from(t), t.len() as int) =~= Seq::<Span>::empty());
    assert(scanned(t) =~= seq![Span { start: 0, end: t.len() as usize, kind: Kind::Str }]);
}

/// A name behind a caret is a global, caret and all.
pub proof fn a_global_is_coloured(name: Seq<char>, rest: Seq<char>)
    requires
        is_word(name),
        rest.len() > 0 ==> !ascii_alnum(rest[0]),
        name.len() + rest.len() + 1 <= usize::MAX,
    ensures
        scanned(seq!['^'] + name + rest).len() > 0,
        scanned(seq!['^'] + name + rest)[0] == (Span {
            start: 0,
            end: (name.len() + 1) as usize,
            kind: Kind::Global,
        }),
{
    let s = seq!['^'] + name + rest;
    let n = name.len() as int;
    assert forall|i: int| 1 <= i < n + 1 implies ascii_alnum(#[trigger] s[i]) by {
        assert(s[i] == name[i - 1]);
    }
    assert(s[1] == name[0]);
    if rest.len() > 0 {
        assert(s[n + 1] == rest[0]);
    }
    alnum_run(s, 2, n + 1);
    first_token(s, code_from(s), 0);
}

/// A name, a caret and another name are a label and its routine.
pub proof fn a_label_and_its_routine(tag: Seq<char>, routine: Seq<char>, rest: Seq<char>)
    requires
        is_word(tag),
        is_word(routine),
        rest.len() > 0 ==> !ascii_alnum(rest[0]),
        tag.len() + routine.len() + rest.len() + 1 <= usize::MAX,
    ensures
        ({
            let spans = scanned(tag + seq!['^'] + routine + rest);
            let n = tag.len();
            &&& spans.len() > 1
            &&& spans[0] == (Span { start: 0, end: n as usize, kind: Kind::Label })
            &&& spans[1] == (Span {
                start: n as usize,
                end: (n + 1 + routine.len()) as usize,
                kind: Kind::Routine,
            })
        }),
{
    let s = tag + seq!['^'] + routine + rest;
    let n = tag.len() as int;
    let end = n + 1 + routine.len();
    let code = code_from(s);
    assert(s[0] == tag[0] && s[n] == '^' && s[n + 1] == routine[0]);
    assert forall|i: int| 0 <= i < n implies ascii_alnum(#[trigger] s[i]) by {
        assert(s[i] == tag[i]);
    }
    assert forall|i: int| n + 1 <= i < end implies ascii_alnum(#[trigger] s[i]) by {
        assert(s[i] == routine[i - n - 1]);
    }
    if rest.len() > 0 {
        assert(s[end] == rest[0]);
    }
    alnum_run(s, 1, n);
    alnum_run(s, n + 2, end);
    assert(ascii_alnum(s[n - 1]));
    first_token(s, code, 0);
    first_token(s, code, n);
    assert(scanned(s)[1] == spans_from(s, code, n)[0]);
}

/// A name behind dollars: three are a macro, two an extrinsic function, and one a
/// function where it is called and a variable where it is not.
pub proof fn a_name_behind_dollars(name: Seq<char>, rest: Seq<char>)
    requires
        is_word(name),
        rest.len() > 0 ==> !ascii_alnum(rest[0]),
        name.len() + rest.len() + 3 <= usize::MAX,
    ensures
        ({
            let n = name.len();
            let one = scanned(seq!['$'] + name + rest);
            let two = scanned(seq!['$', '$'] + name + rest);
            let three = scanned(seq!['$', '$', '$'] + name + rest);
            &&& one.len() > 0 && two.len() > 0 && three.len() > 0
            &&& one[0] == (Span {
                start: 0,
                end: (n + 1) as usize,
                kind: if rest.len() > 0 && rest[0] == '(' {
                    Kind::Function
                } else {
                    Kind::SystemVariable
                },
            })
            &&& two[0] == (Span { start: 0, end: (n + 2) as usize, kind: Kind::Extrinsic })
            &&& three[0] == (Span { start: 0, end: (n + 3) as usize, kind: Kind::PreProcessor })
        }),
{
    behind_dollars(seq!['$'], name, rest);
    behind_dollars(seq!['$', '$'], name, rest);
    behind_dollars(seq!['$', '$', '$'], name, rest);
}

proof fn behind_dollars(dollars: Seq<char>, name: Seq<char>, rest: Seq<char>)
    requires
        dollars == seq!['$'] || dollars == seq!['$', '$'] || dollars == seq!['$', '$', '$'],
        is_word(name),
        rest.len() > 0 ==> !ascii_alnum(rest[0]),
        name.len() + rest.len() + 3 <= usize::MAX,
    ensures
        ({
            let spans = scanned(dollars + name + rest);
            let n = dollars.len() + name.len();
            &&& spans.len() > 0
            &&& spans[0] == (Span {
                start: 0,
                end: n as usize,
                kind: if dollars.len() == 3 {
                    Kind::PreProcessor
                } else if dollars.len() == 2 {
                    Kind::Extrinsic
                } else if rest.len() > 0 && rest[0] == '(' {
                    Kind::Function
                } else {
                    Kind::SystemVariable
                },
            })
        }),
{
    let s = dollars + name + rest;
    let d = dollars.len() as int;
    let end = d + name.len();
    assert(s[0] == dollars[0] && s[d] == name[0]);
    assert(d > 1 ==> s[1] == dollars[1]);
    assert(d > 2 ==> s[2] == dollars[2]);
    assert forall|i: int| d <= i < end implies ascii_alnum(#[trigger] s[i]) by {
        assert(s[i] == name[i - d]);
    }
    if rest.len() > 0 {
        assert(s[end] == rest[0]);
    }
    alnum_run(s, d + 1, end);
    first_token(s, code_from(s), 0);
}

/// A number is coloured with its fraction, and without the full stop that ends a
/// sentence.
pub proof fn a_number_is_coloured_whole(whole: Seq<char>, part: Seq<char>, rest: Seq<char>)
    requires
        whole.len() > 0,
        part.len() > 0,
        forall|i: int| 0 <= i < whole.len() ==> ascii_digit(#[trigger] whole[i]),
        forall|i: int| 0 <= i < part.len() ==> ascii_digit(#[trigger] part[i]),
        rest.len() > 0 ==> !ascii_digit(rest[0]),
        whole.len() + part.len() + rest.len() + 1 <= usize::MAX,
    ensures
        scanned(whole + seq!['.'] + part + rest).len() > 0,
        scanned(whole + seq!['.'] + part + rest)[0] == (Span {
            start: 0,
            end: (whole.len() + 1 + part.len()) as usize,
            kind: Kind::Number,
        }),
        rest.len() > 0 && rest[0] != '.' ==> scanned(whole + rest).len() > 0 && scanned(
            whole + rest,
        )[0] == (Span { start: 0, end: whole.len() as usize, kind: Kind::Number }),
        scanned(whole + seq!['.']).len() > 0,
        scanned(whole + seq!['.'])[0] == (Span {
            start: 0,
            end: whole.len() as usize,
            kind: Kind::Number,
        }),
{
    let s = whole + seq!['.'] + part + rest;
    let n = whole.len() as int;
    let end = n + 1 + part.len();
    assert forall|i: int| 0 <= i < n implies ascii_digit(#[trigger] s[i]) by {
        assert(s[i] == whole[i]);
    }
    assert forall|i: int| n + 1 <= i < end implies ascii_digit(#[trigger] s[i]) by {
        assert(s[i] == part[i - n - 1]);
    }
    assert(s[n] == '.');
    assert(ascii_digit(s[0]) && ascii_digit(s[n + 1]));
    if rest.len() > 0 {
        assert(s[end] == rest[0]);
    }
    digit_run(s, 0, n);
    digit_run(s, n + 1, end);
    first_token(s, code_from(s), 0);
    let t = whole + rest;
    let u = whole + seq!['.'];
    assert forall|i: int| 0 <= i < n implies ascii_digit(#[trigger] t[i]) by {
        assert(t[i] == whole[i]);
    }
    assert forall|i: int| 0 <= i < n implies ascii_digit(#[trigger] u[i]) by {
        assert(u[i] == whole[i]);
    }
    assert(ascii_digit(t[0]) && ascii_digit(u[0]) && u[n] == '.');
    digit_run(u, 0, n);
    first_token(u, code_from(u), 0);
    if rest.len() > 0 && rest[0] != '.' {
        assert(t[n] == rest[0]);
        digit_run(t, 0, n);
        first_token(t, code_from(t), 0);
    }
}

/// `##class` is a keyword, and what stands in its brackets the class.
pub proof fn a_class_is_coloured(word: Seq<char>, class: Seq<char>)
    requires
        is_word(word),
        class.len() > 0,
        forall|i: int|
            0 <= i < class.len() ==> ascii_alnum(#[trigger] class[i]) || class[i] == '.'
                || class[i] == '%',
        word.len() + class.len() + 4 <= usize::MAX,
    ensures
        ({
            let spans = scanned(seq!['#', '#'] + word + seq!['('] + class + seq![')']);
            let n = word.len() + 2;
            &&& spans.len() > 1
            &&& spans[0] == (Span { start: 0, end: n as usize, kind: Kind::Command })
            &&& spans[1] == (Span {
                start: (n + 1) as usize,
                end: (n + 1 + class.len()) as usize,
                kind: Kind::ObjectClass,
            })
        }),
{
    let s = seq!['#', '#'] + word + seq!['('] + class + seq![')'];
    let n = (word.len() + 2) as int;
    let end = n + 1 + class.len();
    assert(s[0] == '#' && s[1] == '#' && s[2] == word[0] && s[n] == '(' && s[end] == ')');
    assert forall|i: int| 2 <= i < n implies ascii_alnum(#[trigger] s[i]) by {
        assert(s[i] == word[i - 2]);
    }
    assert forall|i: int| n + 1 <= i < end implies ascii_alnum(#[trigger] s[i]) || s[i] == '.'
        || s[i] == '%' by {
        assert(s[i] == class[i - n - 1]);
    }
    alnum_run(s, 3, n);
    class_run(s, n + 1, end);
    first_token(s, code_from(s), 0);
}

// ---- shapes that are coloured on a command line -------------------------

/// A routine behind a command that calls one is a routine, and behind any other
/// word a global.
pub proof fn a_call_names_a_routine(
    name: Seq<char>,
    word: Seq<char>,
    routine: Seq<char>,
)
    requires
        is_word(name),
        is_word(word),
        is_word(routine),
        language_commands().contains(lowered(word)),
        name.len() + word.len() + routine.len() + 3 <= usize::MAX,
    ensures
        ({
            let spans = scanned(typed_at(name, word + seq![' ', '^'] + routine));
            let at = name.len() + word.len() + 2;
            let calls = lowered(word) == "d"@ || lowered(word) == "do"@ || lowered(word) == "g"@
                || lowered(word) == "goto"@ || lowered(word) == "j"@ || lowered(word) == "job"@;
            &&& spans.len() > 1
            &&& spans[1] == (Span {
                start: at as usize,
                end: (at + 1 + routine.len()) as usize,
                kind: if calls {
                    Kind::Routine
                } else {
                    Kind::Global
                },
            })
        }),
{
    let rest = seq![' ', '^'] + routine;
    let code = word + rest;
    assert(word + seq![' ', '^'] + routine =~= code);
    let s = typed_at(name, code);
    let n = (name.len() + 1) as int;
    let mid = n + word.len();
    let at = mid + 1;
    let end = at + 1 + routine.len();
    a_command_is_coloured(name, word, rest);
    the_prompt_is_not_coloured(name, code);
    assert(s[mid] == rest[0] && s[at] == rest[1] && s[at + 1] == routine[0] && s[n - 1] == '>');
    assert forall|i: int| at + 1 <= i < end implies ascii_alnum(#[trigger] s[i]) by {
        assert(s[i] == routine[i - at - 1]);
    }
    assert forall|i: int| n <= i < mid implies ascii_alnum(#[trigger] s[i]) by {
        assert(s[i] == word[i - n]);
    }
    assert(s[n] == word[0]);
    alnum_run(s, n + 1, mid);
    alnum_run(s, at + 2, end);
    assert(s.subrange(n, mid) =~= word);
    every_command_is_recognised(word);
    let t = token(s, n, true);
    assert(t.spans.len() == 1 && t.next == mid);
    let blank = token(s, mid, true);
    assert(blank.spans =~= Seq::<Span>::empty() && blank.next == at);
    assert(spans_from(s, n, mid) =~= spans_from(s, n, at));
    back_to_the_word(s, n, mid);
    callers(lowered(word));
    assert(word.len() <= 9);
    first_token(s, n, at);
    assert(spans_from(s, n, n)[1] == spans_from(s, n, at)[0]);
}

proof fn back_to_the_word(s: Seq<char>, from: int, to: int)
    requires
        0 < from <= to,
        to + 1 < s.len(),
        forall|i: int| from <= i < to ==> ascii_alnum(#[trigger] s[i]),
        s[from - 1] == '>',
        s[to] == ' ',
        from < to,
    ensures
        super::syntax::spaces_before(s, to + 1) == to,
        super::syntax::word_before(s, to) == from,
{
    reveal_with_fuel(super::syntax::spaces_before, 3);
    assert(ascii_alnum(s[to - 1]));
    word_run(s, from, to);
}

proof fn word_run(s: Seq<char>, from: int, at: int)
    requires
        0 < from <= at <= s.len(),
        forall|i: int| from <= i < at ==> ascii_alnum(#[trigger] s[i]),
        s[from - 1] == '>',
    ensures
        super::syntax::word_before(s, at) == from,
    decreases at - from,
{
    if at > from {
        assert(ascii_alnum(s[at - 1]));
        word_run(s, from, at - 1);
    }
}

proof fn callers(word: Seq<char>)
    ensures
        call_words().contains(word) == (word == "d"@ || word == "do"@ || word == "g"@ || word
            == "goto"@ || word == "j"@ || word == "job"@),
{
    let list = call_words();
    assert(list =~= seq!["d"@, "do"@, "g"@, "goto"@, "j"@, "job"@]);
    assert(list[0] == "d"@ && list[1] == "do"@ && list[2] == "g"@ && list[3] == "goto"@ && list[4]
        == "j"@ && list[5] == "job"@);
    if word == "d"@ || word == "do"@ || word == "g"@ || word == "goto"@ || word == "j"@ || word
        == "job"@ {
        assert(list.contains(word));
    }
    if list.contains(word) {
        let k = choose|k: int| 0 <= k < list.len() && list[k] == word;
        assert(k == 0 || k == 1 || k == 2 || k == 3 || k == 4 || k == 5);
    }
}

/// Brackets, commas, colons and semicolons typed at a prompt are delimiters, and
/// a run of the characters that calculate and compare is one operator.
pub proof fn punctuation_is_told_apart(name: Seq<char>, c: char, run: Seq<char>, rest: Seq<char>)
    requires
        is_word(name),
        c == '(' || c == ')' || c == ',' || c == ':' || c == ';',
        run.len() > 0,
        forall|i: int|
            0 <= i < run.len() ==> #[trigger] run[i] == '=' || run[i] == '+' || run[i] == '-'
                || run[i] == '*' || run[i] == '/' || run[i] == '\\' || run[i] == '\'' || run[i] == '!'
                || run[i] == '&' || run[i] == '_' || run[i] == '<' || run[i] == '>' || run[i] == '?'
                || run[i] == '@' || run[i] == '[' || run[i] == ']',
        rest.len() > 0 ==> ascii_alnum(rest[0]) || rest[0] == ' ' || rest[0] == '(' || rest[0]
            == '"',
        name.len() + run.len() + rest.len() + 1 <= usize::MAX,
    ensures
        ({
            let n = name.len() + 1;
            let one = scanned(typed_at(name, seq![c] + rest));
            let more = scanned(typed_at(name, run + rest));
            &&& one.len() > 0 && more.len() > 0
            &&& one[0] == (Span { start: n as usize, end: (n + 1) as usize, kind: Kind::Delimiter })
            &&& more[0] == (Span {
                start: n as usize,
                end: (n + run.len()) as usize,
                kind: Kind::Operator,
            })
        }),
{
    let n = (name.len() + 1) as int;
    let s = typed_at(name, seq![c] + rest);
    the_prompt_is_not_coloured(name, seq![c] + rest);
    assert(s[n] == c);
    first_token(s, n, n);
    let t = typed_at(name, run + rest);
    let end = n + run.len();
    the_prompt_is_not_coloured(name, run + rest);
    assert forall|i: int| n <= i < end implies operates(#[trigger] t[i]) by {
        assert(t[i] == run[i - n]);
    }
    assert(t[n] == run[0]);
    if rest.len() > 0 {
        assert(t[end] == rest[0]);
    }
    operator_run(t, n + 1, end);
    first_token(t, n, n);
}

/// The name behind a dot: called it is a method, behind two dots an attribute,
/// and otherwise a member. The dots are not part of it.
pub proof fn a_name_behind_dots(
    name: Seq<char>,
    object: Seq<char>,
    member: Seq<char>,
    rest: Seq<char>,
)
    requires
        is_word(name),
        is_word(object),
        is_word(member),
        !language_commands().contains(lowered(object)),
        rest.len() > 0 ==> !ascii_alnum(rest[0]),
        name.len() + object.len() + member.len() + rest.len() + 3 <= usize::MAX,
    ensures
        ({
            let n = name.len() + 1;
            let m = n + object.len() + 1;
            let called = rest.len() > 0 && rest[0] == '(';
            let two = scanned(typed_at(name, seq!['.', '.'] + member + rest));
            let one = scanned(typed_at(name, object + seq!['.'] + member + rest));
            &&& two.len() > 0 && one.len() > 0
            &&& two[0] == (Span {
                start: (n + 2) as usize,
                end: (n + 2 + member.len()) as usize,
                kind: if called {
                    Kind::ObjectMethod
                } else {
                    Kind::ObjectAttribute
                },
            })
            &&& one[0] == (Span {
                start: m as usize,
                end: (m + member.len()) as usize,
                kind: if called {
                    Kind::ObjectMethod
                } else {
                    Kind::ObjectMember
                },
            })
        }),
{
    let n = (name.len() + 1) as int;
    let code = seq!['.', '.'] + member + rest;
    let s = typed_at(name, code);
    the_prompt_is_not_coloured(name, code);
    let end = n + 2 + member.len();
    assert(s[n] == '.' && s[n + 1] == '.' && s[n + 2] == member[0]);
    assert forall|i: int| n + 2 <= i < end implies ascii_alnum(#[trigger] s[i]) by {
        assert(s[i] == member[i - n - 2]);
    }
    if rest.len() > 0 {
        assert(s[end] == rest[0]);
    }
    alnum_run(s, n + 3, end);
    first_token(s, n, n);

    let typed = object + seq!['.'] + member + rest;
    let t = typed_at(name, typed);
    the_prompt_is_not_coloured(name, typed);
    let at = n + object.len();
    let stop = at + 1 + member.len();
    assert(t[n] == object[0] && t[at] == '.' && t[at + 1] == member[0]);
    assert forall|i: int| n <= i < at implies ascii_alnum(#[trigger] t[i]) by {
        assert(t[i] == object[i - n]);
    }
    assert forall|i: int| at + 1 <= i < stop implies ascii_alnum(#[trigger] t[i]) by {
        assert(t[i] == member[i - at - 1]);
    }
    if rest.len() > 0 {
        assert(t[stop] == rest[0]);
    }
    alnum_run(t, n + 1, at);
    alnum_run(t, at + 2, stop);
    assert(ascii_alnum(t[at - 1]));
    assert(t.subrange(n, at) =~= object);
    every_command_is_recognised(object);
    let first = token(t, n, true);
    assert(first.spans =~= Seq::<Span>::empty() && first.next == at);
    assert(spans_from(t, n, n) =~= spans_from(t, n, at));
    first_token(t, n, at);
}

/// A command may butt straight up against what follows it, unless that makes it
/// part of an expression.
pub proof fn a_command_may_butt_up(name: Seq<char>, word: Seq<char>, next: char, rest: Seq<char>)
    requires
        is_word(name),
        is_word(word),
        language_commands().contains(lowered(word)),
        !ascii_alnum(next),
        next != '^',
        name.len() + word.len() + rest.len() + 1 < usize::MAX,
    ensures
        ({
            let s = typed_at(name, word + (seq![next] + rest));
            let n = name.len() + 1;
            let end = n + word.len();
            let command = Span { start: n as usize, end: end as usize, kind: Kind::Command };
            &&& next == ' ' || next == ':' || next == '"' || next == '$' || next == '#' || next
                == '@' || next == '!' ==> scanned(s).len() > 0 && scanned(s)[0] == command
            &&& next == '=' || next == '(' || next == ',' || next == ')' || next == '.' || next
                == '+' || next == '-' || next == '_' ==> scanned(s) == spans_from(
                s,
                n as int,
                end as int,
            )
        }),
{
    let code = word + (seq![next] + rest);
    let s = typed_at(name, code);
    let n = (name.len() + 1) as int;
    let end = n + word.len();
    the_prompt_is_not_coloured(name, code);
    every_command_is_recognised(word);
    assert forall|i: int| n <= i < end implies ascii_alnum(#[trigger] s[i]) by {
        assert(s[i] == word[i - n]);
    }
    assert(s[n] == word[0] && s[end] == next);
    alnum_run(s, n + 1, end);
    assert(s.subrange(n, end) =~= word);
    let t = token(s, n, true);
    if next == ' ' || next == ':' || next == '"' || next == '$' || next == '#' || next == '@'
        || next == '!' {
        first_token(s, n, n);
    } else if next == '=' || next == '(' || next == ',' || next == ')' || next == '.' || next == '+'
        || next == '-' || next == '_' {
        assert(t.spans =~= Seq::<Span>::empty() && t.next == end);
        assert(spans_from(s, n, n) =~= spans_from(s, n, end));
    }
}

proof fn string_goes_on(s: Seq<char>, from: int, at: int)
    requires
        0 <= from <= at,
        at + 1 < s.len(),
        forall|i: int| from <= i < at ==> #[trigger] s[i] != '"',
        s[at] == '"',
        s[at + 1] == '"',
    ensures
        string_end(s, from) == string_end(s, at + 2),
    decreases at - from,
{
    if from < at {
        string_goes_on(s, from + 1, at);
    }
}

/// A doubled quote is part of a string.
pub proof fn a_doubled_quote_is_content(a: Seq<char>, b: Seq<char>, rest: Seq<char>)
    requires
        forall|i: int| 0 <= i < a.len() ==> #[trigger] a[i] != '"',
        forall|i: int| 0 <= i < b.len() ==> #[trigger] b[i] != '"',
        rest.len() > 0 ==> rest[0] != '"',
        a.len() + b.len() + rest.len() + 4 <= usize::MAX,
    ensures
        ({
            let s = seq!['"'] + a + seq!['"', '"'] + b + seq!['"'] + rest;
            &&& scanned(s).len() > 0
            &&& scanned(s)[0] == (Span {
                start: 0,
                end: (a.len() + b.len() + 4) as usize,
                kind: Kind::Str,
            })
        }),
{
    let s = seq!['"'] + a + seq!['"', '"'] + b + seq!['"'] + rest;
    let n = (a.len() + 1) as int;
    let m = n + 2 + b.len();
    assert forall|i: int| 1 <= i < n implies #[trigger] s[i] != '"' by {
        assert(s[i] == a[i - 1]);
    }
    assert forall|i: int| n + 2 <= i < m implies #[trigger] s[i] != '"' by {
        assert(s[i] == b[i - n - 2]);
    }
    assert(s[n] == '"' && s[n + 1] == '"' && s[m] == '"');
    if rest.len() > 0 {
        assert(s[m + 1] == rest[0]);
    }
    string_goes_on(s, 1, n);
    string_run(s, n + 2, m);
    first_token(s, code_from(s), 0);
}

/// A directive typed at a prompt is coloured with its hash, and a caret or a hash
/// on its own is an operator there.
pub proof fn hashes_and_carets_at_a_prompt(name: Seq<char>, word: Seq<char>, rest: Seq<char>)
    requires
        is_word(name),
        is_word(word),
        rest.len() > 0 ==> rest[0] == ' ',
        name.len() + word.len() + rest.len() + 2 < usize::MAX,
    ensures
        ({
            let n = name.len() + 1;
            let directive = scanned(typed_at(name, seq!['#'] + word + rest));
            let caret = scanned(typed_at(name, seq!['^'] + rest));
            let hash = scanned(typed_at(name, seq!['#'] + rest));
            let operator = Span { start: n as usize, end: (n + 1) as usize, kind: Kind::Operator };
            &&& directive.len() > 0 && caret.len() > 0 && hash.len() > 0
            &&& directive[0] == (Span {
                start: n as usize,
                end: (n + 1 + word.len()) as usize,
                kind: Kind::PreProcessor,
            })
            &&& caret[0] == operator
            &&& hash[0] == operator
        }),
{
    let n = (name.len() + 1) as int;
    let code = seq!['#'] + word + rest;
    let s = typed_at(name, code);
    let end = n + 1 + word.len();
    the_prompt_is_not_coloured(name, code);
    assert(s[n] == '#' && s[n + 1] == word[0]);
    assert forall|i: int| n + 1 <= i < end implies ascii_alnum(#[trigger] s[i]) by {
        assert(s[i] == word[i - n - 1]);
    }
    if rest.len() > 0 {
        assert(s[end] == rest[0]);
    }
    alnum_run(s, n + 2, end);
    first_token(s, n, n);
    let t = typed_at(name, seq!['^'] + rest);
    the_prompt_is_not_coloured(name, seq!['^'] + rest);
    assert(t[n] == '^');
    if rest.len() > 0 {
        assert(t[n + 1] == ' ');
    }
    first_token(t, n, n);
    let u = typed_at(name, seq!['#'] + rest);
    the_prompt_is_not_coloured(name, seq!['#'] + rest);
    assert(u[n] == '#');
    if rest.len() > 0 {
        assert(u[n + 1] == ' ');
    }
    first_token(u, n, n);
}

/// A name may begin with a percent sign, as in a global or a routine.
pub proof fn a_name_may_begin_with_a_percent_sign(name: Seq<char>, rest: Seq<char>)
    requires
        is_word(name),
        rest.len() > 0 ==> !ascii_alnum(rest[0]),
        name.len() + rest.len() + 2 <= usize::MAX,
    ensures
        scanned(seq!['^', '%'] + name + rest).len() > 0,
        scanned(seq!['^', '%'] + name + rest)[0] == (Span {
            start: 0,
            end: (name.len() + 2) as usize,
            kind: Kind::Global,
        }),
{
    let s = seq!['^', '%'] + name + rest;
    let n = name.len() as int;
    assert forall|i: int| 2 <= i < n + 2 implies ascii_alnum(#[trigger] s[i]) by {
        assert(s[i] == name[i - 2]);
    }
    assert(s[0] == '^' && s[1] == '%');
    if rest.len() > 0 {
        assert(s[n + 2] == rest[0]);
    }
    alnum_run(s, 2, n + 2);
    first_token(s, code_from(s), 0);
}

/// A caret right behind a name, or behind a percent sign, leads to a routine.
pub proof fn a_caret_behind_a_name(s: Seq<char>, at: int, end: int, code: bool)
    requires
        0 < at,
        at + 1 < end <= s.len() <= usize::MAX,
        s[at] == '^',
        ascii_alnum(s[at - 1]) || s[at - 1] == '%',
        forall|i: int| at + 1 <= i < end ==> ascii_alnum(#[trigger] s[i]),
        !('0' <= s[at + 1] && s[at + 1] <= '9'),
        end < s.len() ==> !ascii_alnum(s[end]),
    ensures
        token(s, at, code).spans == seq![
            Span { start: at as usize, end: end as usize, kind: Kind::Routine },
        ],
        token(s, at, code).next == end,
{
    alnum_run(s, at + 2, end);
}

proof fn reading_any_prompt(s: Seq<char>, from: int, at: int)
    requires
        0 <= from <= at < s.len(),
        s[at] == '>',
        at > 0 && ascii_alnum(s[at - 1]),
        forall|i: int|
            0 <= i < at ==> ascii_alnum(#[trigger] s[i]) || s[i] == '%' || s[i] == '^' || s[i] == '_'
                || s[i] == '-' || s[i] == '.' || s[i] == ':',
    ensures
        prompt_from(s, from) == Some((at + 1) as usize),
    decreases at - from,
{
    if from < at {
        assert(ascii_alnum(s[from]) || s[from] == '%' || s[from] == '^' || s[from] == '_' || s[from]
            == '-' || s[from] == '.' || s[from] == ':');
        reading_any_prompt(s, from + 1, at);
    }
}

/// A prompt is made of letters, digits and the marks of a namespace, a database or
/// a transaction, and ends in a letter or a digit before its `>`.
pub proof fn what_a_prompt_is_made_of(name: Seq<char>, code: Seq<char>)
    requires
        name.len() > 0,
        forall|i: int|
            0 <= i < name.len() ==> ascii_alnum(#[trigger] name[i]) || name[i] == '%' || name[i]
                == '^' || name[i] == '_' || name[i] == '-' || name[i] == '.' || name[i] == ':',
        name.len() + code.len() < usize::MAX,
    ensures
        ascii_alnum(name.last()) ==> prompt(typed_at(name, code)) == Some(
            (name.len() + 1) as usize,
        ),
{
    let s = typed_at(name, code);
    let n = name.len() as int;
    if ascii_alnum(name.last()) {
        assert forall|i: int| 0 <= i < n implies ascii_alnum(#[trigger] s[i]) || s[i] == '%' || s[i]
            == '^' || s[i] == '_' || s[i] == '-' || s[i] == '.' || s[i] == ':' by {
            assert(s[i] == name[i]);
        }
        assert(s[n - 1] == name.last() && s[n] == '>');
        reading_any_prompt(s, 0, n);
    }
}

} // verus!
