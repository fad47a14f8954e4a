//! Guided access to the IRIS utilities the team actually runs.
//!
//! Each helper *composes the exact line* the user would have typed, letting the
//! output render in the terminal like any other session. That keeps the
//! terminal authoritative while removing the need to remember each routine's
//! argument order.

use vstd::prelude::*;

use crate::i18n::{both_filled, filled, tr1, tr2, translated, Lang};
use crate::objectscript::{literal, quoted};
use crate::text::{texts, trim, trimmed};

verus! {

/// One field the helper asks for, with the value it starts out holding.
#[derive(Clone, Copy, Debug)]
pub struct Param {
    /// Label shown above the field.
    pub label: &'static str,
    /// Pre-filled value. Empty means the field starts blank.
    pub default: &'static str,
}

/// The views of a list of fields: label and default of each.
pub open spec fn fields(params: Seq<Param>) -> Seq<(Seq<char>, Seq<char>)> {
    params.map_values(|p: Param| (p.label@, p.default@))
}

/// A prepared invocation: the lines to send, and what to say about it.
#[derive(Clone, Debug, PartialEq, Eq)]
pub struct Invocation {
    pub lines: Vec<String>,
    /// Shown in the status line once it has been sent. Already translated: it
    /// is read, not sent, so unlike `lines` it is not ObjectScript.
    pub summary: String,
}

/// The helpers offered.
#[derive(Clone, Copy, Debug, PartialEq, Eq, Structural)]
pub enum Native {
    CompileClasses,
    GenerateInterface,
}

/// The trimmed value of a field; one that was not filled in counts as blank.
pub open spec fn field(values: Seq<Seq<char>>, n: int) -> Seq<char> {
    if n < values.len() {
        trim(values[n])
    } else {
        Seq::empty()
    }
}

impl Native {
    pub const ALL: [Native; 2] = [Native::CompileClasses, Native::GenerateInterface];

    pub open spec fn asked(self) -> Seq<(Seq<char>, Seq<char>)> {
        match self {
            Native::CompileClasses => seq![("Package"@, ""@), ("Flag"@, "bkf1"@)],
            Native::GenerateInterface => seq![("Routine/Group"@, ""@)],
        }
    }

    /// The line a helper types.
    pub open spec fn line(self, values: Seq<Seq<char>>) -> Seq<char> {
        match self {
            Native::CompileClasses => "do $SYSTEM.OBJ.CompilePackage("@ + literal(field(values, 0))
                + ","@ + literal(field(values, 1)) + ")"@,
            Native::GenerateInterface => "do ^%CSW1GEN("@ + literal(field(values, 0)) + ")"@,
        }
    }

    /// What is said about it.
    pub open spec fn said(self, lang: Lang, values: Seq<Seq<char>>) -> Seq<char> {
        match self {
            Native::CompileClasses => both_filled(
                translated(lang, "Compile classes: {} (flag {})"@),
                field(values, 0),
                field(values, 1),
            ),
            Native::GenerateInterface => filled(
                translated(lang, "Generate interface: {}"@),
                field(values, 0),
            ),
        }
    }

    pub fn label(self) -> (label: &'static str)
        ensures
            label@ == match self {
                Native::CompileClasses => "Compile classes"@,
                Native::GenerateInterface => "Generate interface"@,
            },
    {
        match self {
            Native::CompileClasses => "Compile classes",
            Native::GenerateInterface => "Generate interface",
        }
    }

    /// The fields this helper needs, in the order they are asked for.
    pub fn params(self) -> (params: Vec<Param>)
        ensures
            fields(params@) == self.asked(),
    {
        let params = match self {
            // What everyone passes: build dependencies, keep the generated
            // source, and compile quietly.
            Native::CompileClasses => vec![
                Param { label: "Package", default: "" },
                Param { label: "Flag", default: "bkf1" },
            ],
            Native::GenerateInterface => vec![Param { label: "Routine/Group", default: "" }],
        };
        assert(fields(params@) =~= self.asked());
        params
    }

    /// Values a freshly selected helper starts with.
    pub fn default_values(self) -> (values: Vec<String>)
        ensures
            texts(values@) == self.asked().map_values(|f: (Seq<char>, Seq<char>)| f.1),
    {
        let params = self.params();
        let mut values: Vec<String> = Vec::new();
        let mut i: usize = 0;
        while i < params.len()
            invariant
                i <= params@.len(),
                values@.len() == i,
                forall|k: int| 0 <= k < i ==> (#[trigger] values@[k])@ == params@[k].default@,
            decreases params.len() - i,
        {
            values.push(params[i].default.to_owned());
            i += 1;
        }
        assert forall|k: int| 0 <= k < params@.len() implies #[trigger] self.asked()[k].1
            == params@[k].default@ by {
            assert(fields(params@)[k].1 == params@[k].default@);
        }
        assert(texts(values@) =~= self.asked().map_values(|f: (Seq<char>, Seq<char>)| f.1));
        values
    }

    /// Builds the keystrokes. `values` is positional, matching
    /// [`Native::params`]; a missing entry counts as blank, so a half-filled
    /// form still previews.
    ///
    /// The arguments are strings to the utilities, so they are quoted here
    /// rather than left for the user to remember: an unquoted package name
    /// would reach IRIS as an undefined local variable.
    pub fn build(self, lang: Lang, values: &[String]) -> (made: Invocation)
        ensures
            texts(made.lines@) == seq![self.line(texts(values@))],
            made.summary@ == self.said(lang, texts(values@)),
    {
        let first = value_at(values, 0);
        let second = value_at(values, 1);
        let mut line = String::new();
        let summary = match self {
            Native::CompileClasses => {
                line.append("do $SYSTEM.OBJ.CompilePackage(");
                line.append(quoted(first.as_str()).as_str());
                line.append(",");
                line.append(quoted(second.as_str()).as_str());
                line.append(")");
                tr2(lang, "Compile classes: {} (flag {})", first.as_str(), second.as_str())
            },
            Native::GenerateInterface => {
                line.append("do ^%CSW1GEN(");
                line.append(quoted(first.as_str()).as_str());
                line.append(")");
                tr1(lang, "Generate interface: {}", first.as_str())
            },
        };
        assert(line@ =~= self.line(texts(values@)));
        let mut lines: Vec<String> = Vec::new();
        lines.push(line);
        assert(texts(lines@) =~= seq![line@]);
        Invocation { lines, summary }
    }
}

fn value_at(values: &[String], n: usize) -> (value: String)
    ensures
        value@ == field(texts(values@), n as int),
{
    if n < values.len() {
        assert(texts(values@)[n as int] == values@[n as int]@);
        trimmed(values[n].as_str())
    } else {
        String::new()
    }
}

} // verus!
