//! Macros loaded from XML.
//!
//! A macro is a named snippet of ObjectScript with optional `{{param}}`
//! placeholders. Sending one is just typing on the user's behalf, which is
//! exactly why `confirm="true"` exists: a macro that writes must not be one
//! stray click away.

use vstd::prelude::*;

use super::xml::{
    attr_states, event_states, xml_event, AttrState, EventState, XmlAttr, XmlEvent,
    XmlReader,
};
use crate::text::{
    chars_of, decimal, digits, end_of_trimmed, occurs, opt_text, push_chars, replace_all, replaced,
    same, split, split_chars, start_of_trimmed, text_between, text_of, texts, texts_push, trim,
    trim_is_idempotent, views,
};

verus! {

broadcast use texts_push;

// ---- macros -------------------------------------------------------------

#[derive(Clone, Debug, PartialEq, Eq)]
pub struct Param {
    pub name: String,
    /// Label shown in the fill-in dialog; falls back to the name.
    pub prompt: String,
    pub default: String,
}

impl Default for Param {
    fn default() -> (param: Self)
        ensures
            param.name@ == Seq::<char>::empty(),
            param.prompt@ == Seq::<char>::empty(),
            param.default@ == Seq::<char>::empty(),
    {
        Param { name: String::new(), prompt: String::new(), default: String::new() }
    }
}

/// A [`Param`] as a mathematical value.
pub struct ParamState {
    pub name: Seq<char>,
    pub prompt: Seq<char>,
    pub default: Seq<char>,
}

impl View for Param {
    type V = ParamState;

    open spec fn view(&self) -> ParamState {
        ParamState { name: self.name@, prompt: self.prompt@, default: self.default@ }
    }
}

/// Where a macro came from. Organisation macros are shared and read-only;
/// personal ones are editable. Keeping this on the macro itself means nobody
/// has to guess which file a given entry can be written back to.
#[derive(Clone, Copy, Debug, PartialEq, Eq, Structural)]
pub enum Origin {
    /// Shipped by the organisation from a shared file. Never modified here.
    Organization,
    /// The user's own file, editable.
    Personal,
}

impl Default for Origin {
    fn default() -> (origin: Self)
        ensures
            origin == Origin::Personal,
    {
        Origin::Personal
    }
}

impl Origin {
    pub fn label(self) -> (label: &'static str)
        ensures
            label@ == match self {
                Origin::Organization => "Organization"@,
                Origin::Personal => "Personal"@,
            },
    {
        match self {
            Origin::Organization => "Organization",
            Origin::Personal => "Personal",
        }
    }

    pub fn is_editable(self) -> (yes: bool)
        ensures
            yes == (self == Origin::Personal),
    {
        match self {
            Origin::Personal => true,
            Origin::Organization => false,
        }
    }
}

#[derive(Clone, Debug, PartialEq, Eq)]
pub struct Macro {
    /// Set by the loader, not by the XML: a shared file cannot promote its own
    /// macros to editable.
    pub origin: Origin,
    pub name: String,
    pub description: String,
    /// Optional accelerator, e.g. `Ctrl+Shift+G`. An unparseable value simply
    /// never fires.
    pub key: Option<String>,
    /// Require an explicit yes before sending. Set this on anything that writes.
    pub confirm: bool,
    /// Keep the body out of sight, for a macro whose commands carry a password
    /// or another secret. Only the display is affected: IRIS still echoes what
    /// it is sent.
    pub hide_command: bool,
    pub params: Vec<Param>,
    /// Body lines, already split. Sent one line at a time.
    pub body: Vec<String>,
}

/// A [`Macro`] as a mathematical value.
#[verifier::ext_equal]
pub struct MacroState {
    pub origin: Origin,
    pub name: Seq<char>,
    pub description: Seq<char>,
    pub key: Option<Seq<char>>,
    pub confirm: bool,
    pub hide_command: bool,
    pub params: Seq<ParamState>,
    pub body: Seq<Seq<char>>,
}

pub open spec fn param_states(params: Seq<Param>) -> Seq<ParamState> {
    params.map_values(|p: Param| p@)
}

impl View for Macro {
    type V = MacroState;

    open spec fn view(&self) -> MacroState {
        MacroState {
            origin: self.origin,
            name: self.name@,
            description: self.description@,
            key: opt_text(self.key),
            confirm: self.confirm,
            hide_command: self.hide_command,
            params: param_states(self.params@),
            body: texts(self.body@),
        }
    }
}

impl Default for Macro {
    fn default() -> (m: Self)
        ensures
            m@ == (MacroState {
                origin: Origin::Personal,
                name: Seq::empty(),
                description: Seq::empty(),
                key: None,
                confirm: false,
                hide_command: false,
                params: Seq::empty(),
                body: Seq::empty(),
            }),
    {
        let m = Macro {
            origin: Origin::Personal,
            name: String::new(),
            description: String::new(),
            key: None,
            confirm: false,
            hide_command: false,
            params: Vec::new(),
            body: Vec::new(),
        };
        assert(m@.params =~= Seq::empty());
        assert(m@.body =~= Seq::empty());
        m
    }
}

#[derive(Clone, Debug, PartialEq, Eq)]
pub struct MacroGroup {
    pub name: String,
    pub origin: Origin,
    pub macros: Vec<Macro>,
}

/// A [`MacroGroup`] as a mathematical value.
#[verifier::ext_equal]
pub struct GroupState {
    pub name: Seq<char>,
    pub origin: Origin,
    pub macros: Seq<MacroState>,
}

pub open spec fn macro_states(macros: Seq<Macro>) -> Seq<MacroState> {
    macros.map_values(|m: Macro| m@)
}

impl View for MacroGroup {
    type V = GroupState;

    open spec fn view(&self) -> GroupState {
        GroupState { name: self.name@, origin: self.origin, macros: macro_states(self.macros@) }
    }
}

pub open spec fn group_states(groups: Seq<MacroGroup>) -> Seq<GroupState> {
    groups.map_values(|g: MacroGroup| g@)
}

impl Default for MacroGroup {
    fn default() -> (g: Self)
        ensures
            g@ == (GroupState {
                name: Seq::empty(),
                origin: Origin::Personal,
                macros: Seq::empty(),
            }),
    {
        let g = MacroGroup { name: String::new(), origin: Origin::Personal, macros: Vec::new() };
        assert(g@.macros =~= Seq::empty());
        g
    }
}

// ---- sending one --------------------------------------------------------

/// A parameter's placeholder: its name in double braces.
pub open spec fn placeholder(name: Seq<char>) -> Seq<char> {
    seq!['{', '{'] + name + seq!['}', '}']
}

/// A line with each placeholder in turn replaced by its value. Any other is
/// left alone.
pub open spec fn filled_in(line: Seq<char>, values: Seq<(Seq<char>, Seq<char>)>) -> Seq<char>
    decreases values.len(),
{
    if values.len() == 0 {
        line
    } else {
        let (name, value) = values.last();
        replaced(filled_in(line, values.drop_last()), placeholder(name), value)
    }
}

pub open spec fn value_states(values: Seq<(String, String)>) -> Seq<(Seq<char>, Seq<char>)> {
    values.map_values(|v: (String, String)| (v.0@, v.1@))
}

fn fill_in(line: &str, values: &[(String, String)]) -> (out: String)
    ensures
        out@ == filled_in(line@, value_states(values@)),
{
    let mut chars = chars_of(line);
    let ghost want = value_states(values@);
    let mut i: usize = 0;
    assert(want.take(0) =~= Seq::empty());
    while i < values.len()
        invariant
            i <= values@.len(),
            want == value_states(values@),
            chars@ == filled_in(line@, want.take(i as int)),
        decreases values.len() - i,
    {
        let mut pat: Vec<char> = Vec::new();
        pat.push('{');
        pat.push('{');
        push_chars(&mut pat, chars_of(values[i].0.as_str()).as_slice());
        pat.push('}');
        pat.push('}');
        assert(pat@ =~= placeholder(want[i as int].0));
        let with = chars_of(values[i].1.as_str());
        chars = replace_all(chars.as_slice(), pat.as_slice(), with.as_slice());
        assert(want.take(i + 1).drop_last() =~= want.take(i as int));
        i += 1;
    }
    assert(want.take(i as int) =~= want);
    text_of(chars.as_slice())
}

impl Macro {
    /// Substitutes `{{name}}` placeholders. Unknown placeholders are left
    /// alone rather than blanked, so a typo is visible instead of silently
    /// producing a valid-but-wrong command.
    pub fn expand(&self, values: &[(String, String)]) -> (lines: Vec<String>)
        ensures
            lines@.len() == self@.body.len(),
            forall|i: int|
                0 <= i < lines@.len() ==> (#[trigger] lines@[i])@ == filled_in(
                    self@.body[i],
                    value_states(values@),
                ),
    {
        let mut lines: Vec<String> = Vec::new();
        let mut i: usize = 0;
        while i < self.body.len()
            invariant
                i <= self.body@.len(),
                lines@.len() == i,
                forall|k: int|
                    0 <= k < lines@.len() ==> (#[trigger] lines@[k])@ == filled_in(
                        self@.body[k],
                        value_states(values@),
                    ),
            decreases self.body.len() - i,
        {
            assert(self@.body[i as int] == self.body@[i as int]@);
            lines.push(fill_in(self.body[i].as_str(), values));
            i += 1;
        }
        lines
    }

    /// Parameter values pre-filled with their defaults, ready for the dialog.
    pub fn default_values(&self) -> (values: Vec<(String, String)>)
        ensures
            value_states(values@) == self@.params.map_values(
                |p: ParamState| (p.name, p.default),
            ),
    {
        let mut values: Vec<(String, String)> = Vec::new();
        let mut i: usize = 0;
        while i < self.params.len()
            invariant
                i <= self.params@.len(),
                values@.len() == i,
                forall|k: int|
                    0 <= k < i ==> (#[trigger] values@[k]).0@ == self.params@[k].name@
                        && values@[k].1@ == self.params@[k].default@,
            decreases self.params.len() - i,
        {
            let p = &self.params[i];
            values.push((p.name.clone(), p.default.clone()));
            i += 1;
        }
        assert(value_states(values@) =~= self@.params.map_values(
            |p: ParamState| (p.name, p.default),
        ));
        values
    }

    pub fn needs_input(&self) -> (yes: bool)
        ensures
            yes == (self@.params.len() > 0),
    {
        self.params.len() > 0
    }
}

// ---- bodies -------------------------------------------------------------

/// The pieces that have something on them, trimmed.
pub open spec fn kept_lines(pieces: Seq<Seq<char>>) -> Seq<Seq<char>>
    decreases pieces.len(),
{
    if pieces.len() == 0 {
        Seq::empty()
    } else {
        let before = kept_lines(pieces.drop_last());
        let line = trim(pieces.last());
        if line.len() == 0 {
            before
        } else {
            before.push(line)
        }
    }
}

/// The lines of a body.
pub open spec fn lines_of(text: Seq<char>) -> Seq<Seq<char>> {
    kept_lines(split(text, '\n'))
}

/// One body line per line of text, blank lines dropped and each line trimmed.
///
/// The body is sent a line at a time, so a blank line would be an empty command
/// and leading indentation would reach IRIS as part of it. Applied when the XML
/// is read and again when a macro is saved, and *only* then: a trailing space
/// must survive while it is being typed.
pub fn body_lines(text: &str) -> (lines: Vec<String>)
    ensures
        texts(lines@) == lines_of(text@),
{
    let chars = chars_of(text);
    let pieces = split_chars(chars.as_slice(), '\n');
    let ghost want = views(pieces@);
    let mut lines: Vec<String> = Vec::new();
    let mut i: usize = 0;
    assert(want.take(0) =~= Seq::empty());
    assert(texts(lines@) =~= Seq::empty());
    while i < pieces.len()
        invariant
            i <= pieces@.len(),
            want == views(pieces@),
            texts(lines@) == kept_lines(want.take(i as int)),
        decreases pieces.len() - i,
    {
        let piece = pieces[i].as_slice();
        let len = piece.len();
        let end = end_of_trimmed(piece, 0, len);
        let start = start_of_trimmed(piece, 0, end);
        assert(piece@.subrange(0, len as int) =~= piece@);
        assert(want.take(i + 1).drop_last() =~= want.take(i as int));
        assert(piece@.subrange(start as int, end as int) == trim(want[i as int]));
        if start < end {
            lines.push(text_between(piece, start, end));
        }
        i += 1;
    }
    assert(want.take(i as int) =~= want);
    lines
}

// ---- reading ------------------------------------------------------------

/// Why a macro file could not be read.
#[derive(Clone, Debug, PartialEq, Eq)]
pub struct Malformed {
    /// The byte it broke at.
    pub position: u64,
    pub reason: String,
}

/// The complaint about a file that is malformed at a byte.
pub open spec fn malformed_text(position: u64, reason: Seq<char>) -> Seq<char> {
    "malformed macro XML at byte "@ + digits(position as nat) + ": "@ + reason
}

impl Malformed {
    /// The complaint as it is shown.
    pub fn message(&self) -> (text: String)
        ensures
            text@ == malformed_text(self.position, self.reason@),
    {
        let mut text = String::new();
        text.append("malformed macro XML at byte ");
        text.append(decimal(self.position).as_str());
        text.append(": ");
        text.append(self.reason.as_str());
        assert(text@ =~= malformed_text(self.position, self.reason@));
        text
    }
}

/// The value of the first attribute of a name.
pub open spec fn attr_value(attrs: Seq<AttrState>, key: Seq<char>) -> Option<Seq<char>>
    decreases attrs.len(),
{
    if attrs.len() == 0 {
        None
    } else if attrs[0].key == key {
        Some(
            match attrs[0].value {
                Some(value) => value,
                None => attrs[0].raw,
            },
        )
    } else {
        attr_value(attrs.skip(1), key)
    }
}

/// The value of an attribute, or nothing at all.
pub open spec fn attr_or_empty(attrs: Seq<AttrState>, key: Seq<char>) -> Seq<char> {
    match attr_value(attrs, key) {
        Some(value) => value,
        None => Seq::empty(),
    }
}

/// Whether an attribute is there and says yes.
pub open spec fn attr_set(attrs: Seq<AttrState>, key: Seq<char>) -> bool {
    match attr_value(attrs, key) {
        Some(value) => value == "true"@ || value == "1"@ || value == "yes"@,
        None => false,
    }
}

/// Reads one attribute, resolving XML entities.
///
/// The resolving matters for round-tripping: without it a description
/// containing `&` comes back as `&amp;` and gains another `amp;` every time the
/// personal file is saved.
fn attr(attrs: &Vec<XmlAttr>, key: &str) -> (value: Option<String>)
    ensures
        opt_text(value) == attr_value(attr_states(attrs@), key@),
{
    let ghost want = attr_states(attrs@);
    let mut i: usize = 0;
    assert(want.skip(0) =~= want);
    while i < attrs.len()
        invariant
            i <= attrs@.len(),
            want == attr_states(attrs@),
            attr_value(want.skip(i as int), key@) == attr_value(want, key@),
        decreases attrs.len() - i,
    {
        assert(want.skip(i as int).skip(1) =~= want.skip(i + 1));
        if same(attrs[i].key.as_str(), key) {
            return match &attrs[i].value {
                Some(value) => Some(value.clone()),
                None => Some(attrs[i].raw.clone()),
            };
        }
        i += 1;
    }
    None
}

fn attr_text(attrs: &Vec<XmlAttr>, key: &str) -> (value: String)
    ensures
        value@ == attr_or_empty(attr_states(attrs@), key@),
{
    match attr(attrs, key) {
        Some(value) => value,
        None => String::new(),
    }
}

fn attr_flag(attrs: &Vec<XmlAttr>, key: &str) -> (set: bool)
    ensures
        set == attr_set(attr_states(attrs@), key@),
{
    match attr(attrs, key) {
        Some(value) => {
            let value = value.as_str();
            same(value, "true") || same(value, "1") || same(value, "yes")
        },
        None => false,
    }
}

/// How far reading has come.
#[verifier::ext_equal]
pub struct Progress {
    /// The groups that are complete.
    pub groups: Seq<GroupState>,
    /// The macros that stand outside any group.
    pub loose: Seq<MacroState>,
    pub group: Option<GroupState>,
    pub mac: Option<MacroState>,
    pub in_body: bool,
    pub text: Seq<char>,
}

impl Progress {
    pub open spec fn start() -> Progress {
        Progress {
            groups: Seq::empty(),
            loose: Seq::empty(),
            group: None,
            mac: None,
            in_body: false,
            text: Seq::empty(),
        }
    }

    /// A tag opens a group or a macro, adds a parameter, or begins a body.
    pub open spec fn open(self, tag: Seq<char>, attrs: Seq<AttrState>) -> Progress {
        if tag == "group"@ {
            Progress {
                group: Some(
                    GroupState {
                        name: attr_or_empty(attrs, "name"@),
                        origin: Origin::Personal,
                        macros: Seq::empty(),
                    },
                ),
                ..self
            }
        } else if tag == "macro"@ {
            Progress { mac: Some(macro_of(attrs)), ..self }
        } else if tag == "param"@ {
            match self.mac {
                Some(m) => Progress {
                    mac: Some(MacroState { params: m.params.push(param_of(attrs)), ..m }),
                    ..self
                },
                None => self,
            }
        } else if tag == "body"@ {
            Progress { in_body: true, text: Seq::empty(), ..self }
        } else {
            self
        }
    }

    /// A tag that closes completes what it opened.
    pub open spec fn close(self, tag: Seq<char>) -> Progress {
        if tag == "body"@ {
            Progress {
                in_body: false,
                mac: match self.mac {
                    Some(m) => Some(MacroState { body: lines_of(self.text), ..m }),
                    None => None,
                },
                ..self
            }
        } else if tag == "macro"@ {
            match (self.mac, self.group) {
                (Some(m), Some(g)) => Progress {
                    mac: None,
                    group: Some(GroupState { macros: g.macros.push(m), ..g }),
                    ..self
                },
                (Some(m), None) => Progress { mac: None, loose: self.loose.push(m), ..self },
                (None, _) => self,
            }
        } else if tag == "group"@ {
            match self.group {
                Some(g) => Progress { group: None, groups: self.groups.push(g), ..self },
                None => self,
            }
        } else {
            self
        }
    }

    /// One event. A group that is opened and closed at once holds nothing, and
    /// what follows it stands outside any group; no other tag is closed but by a
    /// tag of its own.
    pub open spec fn step(self, event: EventState) -> Progress {
        match event {
            EventState::Open(tag, attrs) => self.open(tag, attrs),
            EventState::Empty(tag, attrs) => if tag == "group"@ {
                self.open(tag, attrs).close(tag)
            } else {
                self.open(tag, attrs)
            },
            EventState::Close(tag) => self.close(tag),
            EventState::Text(Some(text)) => self.say(text),
            EventState::CData(text) => self.say(text),
            _ => self,
        }
    }

    /// Text counts inside a body only.
    pub open spec fn say(self, text: Seq<char>) -> Progress {
        if self.in_body {
            Progress { text: self.text + text, ..self }
        } else {
            self
        }
    }

    /// What was read, macros outside any group first, in a group of no name.
    /// Whatever was never closed is left out.
    pub open spec fn finish(self) -> Seq<GroupState> {
        if self.loose.len() > 0 {
            seq![
                GroupState {
                    name: Seq::empty(),
                    origin: Origin::Personal,
                    macros: self.loose,
                },
            ] + self.groups
        } else {
            self.groups
        }
    }
}

/// The macro a tag describes, before its parameters and body.
pub open spec fn macro_of(attrs: Seq<AttrState>) -> MacroState {
    MacroState {
        origin: Origin::Personal,
        name: attr_or_empty(attrs, "name"@),
        description: attr_or_empty(attrs, "description"@),
        key: if attr_or_empty(attrs, "key"@).len() > 0 {
            attr_value(attrs, "key"@)
        } else {
            None
        },
        confirm: attr_set(attrs, "confirm"@),
        hide_command: attr_set(attrs, "hide_command"@),
        params: Seq::empty(),
        body: Seq::empty(),
    }
}

/// The parameter a tag describes.
pub open spec fn param_of(attrs: Seq<AttrState>) -> ParamState {
    ParamState {
        name: attr_or_empty(attrs, "name"@),
        prompt: match attr_value(attrs, "prompt"@) {
            Some(prompt) => prompt,
            None => attr_or_empty(attrs, "name"@),
        },
        default: attr_or_empty(attrs, "default"@),
    }
}

/// Reading after a run of events.
pub open spec fn progress(events: Seq<EventState>) -> Progress
    decreases events.len(),
{
    if events.len() == 0 {
        Progress::start()
    } else {
        progress(events.drop_last()).step(events.last())
    }
}

struct Builder {
    groups: Vec<MacroGroup>,
    loose: Vec<Macro>,
    group: Option<MacroGroup>,
    mac: Option<Macro>,
    in_body: bool,
    text: String,
}

impl View for Builder {
    type V = Progress;

    closed spec fn view(&self) -> Progress {
        Progress {
            groups: group_states(self.groups@),
            loose: macro_states(self.loose@),
            group: match self.group {
                Some(g) => Some(g@),
                None => None,
            },
            mac: match self.mac {
                Some(m) => Some(m@),
                None => None,
            },
            in_body: self.in_body,
            text: self.text@,
        }
    }
}

impl Builder {
    fn new() -> (builder: Self)
        ensures
            builder@ == Progress::start(),
    {
        let builder = Builder {
            groups: Vec::new(),
            loose: Vec::new(),
            group: None,
            mac: None,
            in_body: false,
            text: String::new(),
        };
        assert(builder@ =~= Progress::start());
        builder
    }

    fn open(&mut self, tag: &str, attrs: &Vec<XmlAttr>)
        ensures
            final(self)@ == old(self)@.open(tag@, attr_states(attrs@)),
    {
        if same(tag, "group") {
            let group = MacroGroup {
                name: attr_text(attrs, "name"),
                origin: Origin::default(),
                macros: Vec::new(),
            };
            assert(group@.macros =~= Seq::empty());
            self.group = Some(group);
        } else if same(tag, "macro") {
            let key = match attr(attrs, "key") {
                Some(key) => if key.as_str().is_empty() {
                    None
                } else {
                    Some(key)
                },
                None => None,
            };
            let m = Macro {
                origin: Origin::default(),
                name: attr_text(attrs, "name"),
                description: attr_text(attrs, "description"),
                key,
                confirm: attr_flag(attrs, "confirm"),
                hide_command: attr_flag(attrs, "hide_command"),
                params: Vec::new(),
                body: Vec::new(),
            };
            assert(m@ =~= macro_of(attr_states(attrs@)));
            self.mac = Some(m);
        } else if same(tag, "param") {
            if let Some(mut m) = self.mac.take() {
                let name = attr_text(attrs, "name");
                let prompt = match attr(attrs, "prompt") {
                    Some(prompt) => prompt,
                    None => name.clone(),
                };
                let default = attr_text(attrs, "default");
                let ghost before = m@;
                m.params.push(Param { name, prompt, default });
                assert(m@.params =~= before.params.push(param_of(attr_states(attrs@))));
                self.mac = Some(m);
            }
        } else if same(tag, "body") {
            self.in_body = true;
            self.text = String::new();
        }
        assert(self@ =~= old(self)@.open(tag@, attr_states(attrs@)));
    }

    fn close(&mut self, tag: &str)
        ensures
            final(self)@ == old(self)@.close(tag@),
    {
        if same(tag, "body") {
            self.in_body = false;
            if let Some(mut m) = self.mac.take() {
                m.body = body_lines(self.text.as_str());
                self.mac = Some(m);
            }
        } else if same(tag, "macro") {
            if let Some(m) = self.mac.take() {
                match self.group.take() {
                    Some(mut group) => {
                        let ghost before = group@;
                        group.macros.push(m);
                        assert(group@.macros =~= before.macros.push(m@));
                        self.group = Some(group);
                    },
                    None => {
                        let ghost before = self@.loose;
                        self.loose.push(m);
                        assert(self@.loose =~= before.push(m@));
                    },
                }
            }
        } else if same(tag, "group") {
            if let Some(group) = self.group.take() {
                let ghost before = self@.groups;
                self.groups.push(group);
                assert(self@.groups =~= before.push(group@));
            }
        }
        assert(self@ =~= old(self)@.close(tag@));
    }

    fn say(&mut self, text: &str)
        ensures
            final(self)@ == old(self)@.say(text@),
    {
        if self.in_body {
            self.text.append(text);
        }
    }

    fn step(&mut self, event: &XmlEvent)
        ensures
            final(self)@ == old(self)@.step(event@),
    {
        match event {
            XmlEvent::Open(tag, attrs) => self.open(tag.as_str(), attrs),
            XmlEvent::Empty(tag, attrs) => {
                self.open(tag.as_str(), attrs);
                if same(tag.as_str(), "group") {
                    self.close(tag.as_str());
                }
            },
            XmlEvent::Close(tag) => self.close(tag.as_str()),
            XmlEvent::Text(Some(text)) => self.say(text.as_str()),
            XmlEvent::CData(text) => self.say(text.as_str()),
            _ => {},
        }
    }

    fn finish(self) -> (groups: Vec<MacroGroup>)
        ensures
            group_states(groups@) == self@.finish(),
    {
        let mut groups = self.groups;
        if self.loose.len() > 0 {
            let loose = MacroGroup {
                name: String::new(),
                origin: Origin::default(),
                macros: self.loose,
            };
            let ghost before = groups@;
            groups.insert(0, loose);
            assert(group_states(groups@) =~= seq![loose@] + group_states(before));
        }
        groups
    }
}

/// The groups that a run of events describes.
pub fn parse_events(events: &Vec<XmlEvent>) -> (groups: Vec<MacroGroup>)
    ensures
        group_states(groups@) == progress(event_states(events@)).finish(),
{
    let mut builder = Builder::new();
    let ghost want = event_states(events@);
    let mut i: usize = 0;
    assert(want.take(0) =~= Seq::empty());
    while i < events.len()
        invariant
            i <= events@.len(),
            want == event_states(events@),
            builder@ == progress(want.take(i as int)),
        decreases events.len() - i,
    {
        assert(want.take(i + 1).drop_last() =~= want.take(i as int));
        builder.step(&events[i]);
        i += 1;
    }
    assert(want.take(i as int) =~= want);
    builder.finish()
}

/// The events of a document before the `n`th, which is the first that ends it.
pub open spec fn events_before(xml: Seq<char>, n: nat) -> Seq<EventState> {
    Seq::new(n, |i: int| xml_event(xml, i as nat))
}

/// Whether the document's event `n` is the first that ends it.
pub open spec fn ends_at(xml: Seq<char>, n: nat) -> bool {
    xml_event(xml, n).last() && forall|i: int|
        0 <= i < n ==> !(#[trigger] events_before(xml, n)[i]).last()
}

/// What a document says: the groups it describes, or where it is malformed and
/// how.
pub open spec fn meaning(xml: Seq<char>) -> Result<Seq<GroupState>, (u64, Seq<char>)> {
    let n = choose|n: nat| ends_at(xml, n);
    match xml_event(xml, n) {
        EventState::Malformed(position, reason) => Err((position, reason)),
        _ => Ok(progress(events_before(xml, n)).finish()),
    }
}

/// A document ends once.
pub proof fn one_end(xml: Seq<char>, m: nat, n: nat)
    requires
        ends_at(xml, m),
        ends_at(xml, n),
    ensures
        m == n,
{
    if m < n {
        assert(!events_before(xml, n)[m as int].last());
    } else if n < m {
        assert(!events_before(xml, m)[n as int].last());
    }
}

/// Parses the macro XML format:
///
/// ```xml
/// <macros>
///   <group name="Debug">
///     <macro name="Show global" key="Ctrl+Shift+G" confirm="false">
///       <param name="global" prompt="Global name" default="%CSW1"/>
///       <body>ZWRITE ^{{global}}</body>
///     </macro>
///     <macro name="Connect" hide_command="true">
///       <body>Do LOGIN^APP("svc","secret")</body>
///     </macro>
///   </group>
/// </macros>
/// ```
///
/// `confirm` and `hide_command` are false unless spelled `true`, `1` or `yes`,
/// so a file written before either existed keeps its meaning.
///
/// Macros outside any `<group>` land in an unnamed group, so a flat file works
/// without ceremony.
pub fn parse(xml: &str) -> (result: Result<Vec<MacroGroup>, Malformed>)
    ensures
        match result {
            Ok(groups) => meaning(xml@) == Ok::<Seq<GroupState>, (u64, Seq<char>)>(
                group_states(groups@),
            ),
            Err(e) => meaning(xml@) == Err::<Seq<GroupState>, (u64, Seq<char>)>(
                (e.position, e.reason@),
            ),
        },
{
    let mut reader = XmlReader::new(xml);
    let mut events: Vec<XmlEvent> = Vec::new();
    loop
        invariant
            reader.document() == xml@,
            reader.read() == events@.len(),
            events@.len() <= xml@.len(),
            event_states(events@) =~= events_before(xml@, events@.len()),
            forall|i: int|
                0 <= i < events@.len() ==> !(#[trigger] events_before(xml@, events@.len())[i]).last(),
        decreases xml@.len() - events@.len(),
    {
        let event = reader.next();
        match event {
            XmlEvent::End => {
                assert(ends_at(xml@, events@.len()));
                proof {
                    one_end(xml@, choose|n: nat| ends_at(xml@, n), events@.len());
                }
                return Ok(parse_events(&events));
            },
            XmlEvent::Malformed(position, reason) => {
                assert(ends_at(xml@, events@.len()));
                proof {
                    one_end(xml@, choose|n: nat| ends_at(xml@, n), events@.len());
                }
                return Err(Malformed { position, reason });
            },
            _ => {},
        }
        let ghost before = events@;
        events.push(event);
        proof {
            let n = events@.len();
            assert forall|i: int| 0 <= i < n implies event_states(events@)[i] == #[trigger] events_before(
                xml@,
                n,
            )[i] by {
                if i < n - 1 {
                    assert(event_states(before)[i] == events_before(xml@, before.len())[i]);
                }
            }
            assert forall|i: int| 0 <= i < n implies !(#[trigger] events_before(xml@, n)[i]).last() by {
                if i < n - 1 {
                    assert(!events_before(xml@, before.len())[i].last());
                }
            }
        }
    }
}

// ---- the two files ------------------------------------------------------

/// Every macro of a group said to come from `origin`.
pub open spec fn stamped_group(group: GroupState, origin: Origin) -> GroupState {
    GroupState {
        origin,
        macros: group.macros.map_values(|m: MacroState| MacroState { origin, ..m }),
        ..group
    }
}

pub open spec fn stamped(groups: Seq<GroupState>, origin: Origin) -> Seq<GroupState> {
    groups.map_values(|g: GroupState| stamped_group(g, origin))
}

fn stamp_group(group: &mut MacroGroup, origin: Origin)
    ensures
        final(group)@ == stamped_group(old(group)@, origin),
{
    group.origin = origin;
    let ghost was = old(group)@.macros;
    let mut i: usize = 0;
    while i < group.macros.len()
        invariant
            i <= group.macros@.len() == was.len(),
            group.name == old(group).name,
            group.origin == origin,
            was == old(group)@.macros,
            forall|k: int|
                0 <= k < i ==> (#[trigger] group.macros@[k])@ == (MacroState { origin, ..was[k] }),
            forall|k: int| i <= k < was.len() ==> (#[trigger] group.macros@[k])@ == was[k],
        decreases group.macros.len() - i,
    {
        group.macros[i].origin = origin;
        i += 1;
    }
    assert(group@ =~= stamped_group(old(group)@, origin));
}

/// Stamps every macro with where it came from.
pub fn stamp(groups: Vec<MacroGroup>, origin: Origin) -> (out: Vec<MacroGroup>)
    ensures
        group_states(out@) == stamped(group_states(groups@), origin),
{
    let mut out = groups;
    let ghost was = group_states(groups@);
    let mut i: usize = 0;
    while i < out.len()
        invariant
            i <= out@.len() == was.len(),
            forall|k: int| 0 <= k < i ==> (#[trigger] out@[k])@ == stamped_group(was[k], origin),
            forall|k: int| i <= k < was.len() ==> (#[trigger] out@[k])@ == was[k],
        decreases out.len() - i,
    {
        stamp_group(&mut out[i], origin);
        i += 1;
    }
    assert(group_states(out@) =~= stamped(was, origin));
    out
}

/// Reads one file and stamps every macro in it with where it came from.
pub fn load_with_origin(xml: &str, origin: Origin) -> (result: Result<Vec<MacroGroup>, Malformed>)
    ensures
        match result {
            Ok(groups) => meaning(xml@) matches Ok(read) && group_states(groups@) == stamped(
                read,
                origin,
            ),
            Err(e) => meaning(xml@) == Err::<Seq<GroupState>, (u64, Seq<char>)>(
                (e.position, e.reason@),
            ),
        },
{
    match parse(xml) {
        Ok(groups) => Ok(stamp(groups, origin)),
        Err(e) => Err(e),
    }
}

/// Where the first group of a name stands, searching from `from`.
pub open spec fn group_named(groups: Seq<GroupState>, name: Seq<char>, from: int) -> Option<int>
    decreases groups.len() - from,
{
    if from < 0 || from >= groups.len() {
        None
    } else if groups[from].name == name {
        Some(from)
    } else {
        group_named(groups, name, from + 1)
    }
}

/// A group folded in: into the group of the same name if there is one, else at
/// the end.
pub open spec fn with_group(groups: Seq<GroupState>, group: GroupState) -> Seq<GroupState> {
    match group_named(groups, group.name, 0) {
        Some(i) => groups.update(
            i,
            GroupState { macros: groups[i].macros + group.macros, ..groups[i] },
        ),
        None => groups.push(group),
    }
}

pub open spec fn merged(into: Seq<GroupState>, extra: Seq<GroupState>) -> Seq<GroupState>
    decreases extra.len(),
{
    if extra.len() == 0 {
        into
    } else {
        with_group(merged(into, extra.drop_last()), extra.last())
    }
}

fn fold_group(into: &mut Vec<MacroGroup>, group: MacroGroup)
    ensures
        group_states(final(into)@) == with_group(group_states(old(into)@), group@),
{
    let ghost was = group_states(into@);
    let mut i: usize = 0;
    while i < into.len()
        invariant
            i <= into@.len(),
            into@ == old(into)@,
            was == group_states(into@),
            group_named(was, group@.name, 0) == group_named(was, group@.name, i as int),
        decreases into.len() - i,
    {
        assert(was[i as int].name == into@[i as int].name@);
        if same(into[i].name.as_str(), group.name.as_str()) {
            let mut more = group.macros;
            into[i].macros.append(&mut more);
            assert(macro_states(into@[i as int].macros@) =~= was[i as int].macros + group@.macros);
            assert(group_states(into@) =~= with_group(was, group@));
            return;
        }
        i += 1;
    }
    into.push(group);
    assert(group_states(into@) =~= was.push(group@));
}

/// Folds `extra` into `into`, combining groups that share a name.
pub fn merge(into: &mut Vec<MacroGroup>, extra: Vec<MacroGroup>)
    ensures
        group_states(final(into)@) == merged(group_states(old(into)@), group_states(extra@)),
{
    let ghost want = group_states(extra@);
    let ghost n = extra@.len();
    let mut left = extra;
    let ghost mut done: int = 0;
    assert(want.take(0) =~= Seq::empty());
    while left.len() > 0
        invariant
            0 <= done <= n == want.len(),
            left@.len() == n - done,
            group_states(left@) =~= want.skip(done),
            group_states(into@) == merged(group_states(old(into)@), want.take(done)),
        decreases left.len(),
    {
        let ghost before = left@;
        let group = left.remove(0);
        assert(group_states(before)[0] == group@);
        assert(group_states(left@) =~= group_states(before).skip(1));
        assert(want.take(done + 1).drop_last() =~= want.take(done));
        fold_group(into, group);
        proof {
            done = done + 1;
        }
    }
    assert(want.take(done) =~= want);
}

/// A file as it was found.
pub enum Source {
    /// None is configured; there is nothing to say.
    NotConfigured,
    /// It is not at this place.
    Missing(String),
    /// It holds this.
    Text(String),
    /// It is there and could not be read, for this reason.
    Unreadable(String),
}

/// What a load attempt produced, so that a missing or broken shared file can be
/// explained instead of silently showing fewer macros.
#[derive(Clone, Debug, PartialEq, Eq)]
pub struct LoadReport {
    pub groups: Vec<MacroGroup>,
    /// Problems worth showing the user, one per source.
    pub problems: Vec<String>,
}

impl Default for LoadReport {
    fn default() -> (report: Self)
        ensures
            report.groups@ == Seq::<MacroGroup>::empty(),
            report.problems@ == Seq::<String>::empty(),
    {
        LoadReport { groups: Vec::new(), problems: Vec::new() }
    }
}

/// The groups of a file, each macro stamped.
pub open spec fn groups_from(file: Source, origin: Origin) -> Seq<GroupState> {
    match file {
        Source::Text(xml) => match meaning(xml@) {
            Ok(groups) => stamped(groups, origin),
            Err(_) => Seq::empty(),
        },
        _ => Seq::empty(),
    }
}

/// Why a file that is there gave nothing.
pub open spec fn unread(file: Source) -> Option<Seq<char>> {
    match file {
        Source::Text(xml) => match meaning(xml@) {
            Ok(_) => None,
            Err((position, reason)) => Some(malformed_text(position, reason)),
        },
        Source::Unreadable(why) => Some(why@),
        _ => None,
    }
}

/// What there is to say about the organisation's file.
pub open spec fn shared_problems(org: Source) -> Seq<Seq<char>> {
    match (org, unread(org)) {
        (Source::Missing(path), _) => seq![
            "Organization macros not found at "@ + path@ + " — using personal macros only."@,
        ],
        (_, Some(why)) => seq!["Organization macros could not be read: "@ + why],
        _ => Seq::empty(),
    }
}

/// What there is to say about the personal file.
pub open spec fn personal_problems(personal: Source) -> Seq<Seq<char>> {
    match (personal, unread(personal)) {
        (Source::Missing(path), _) => seq![
            "Personal macros could not be read: not found at "@ + path@,
        ],
        (_, Some(why)) => seq!["Personal macros could not be read: "@ + why],
        _ => Seq::empty(),
    }
}

/// Reads a file as far as there is one: its groups, or why there are none.
fn read_source(file: &Source, origin: Origin) -> (read: Result<Vec<MacroGroup>, String>)
    ensures
        match read {
            Ok(groups) => unread(*file) is None && group_states(groups@) == groups_from(
                *file,
                origin,
            ),
            Err(why) => unread(*file) == Some(why@) && groups_from(*file, origin) == Seq::<
                GroupState,
            >::empty(),
        },
{
    match file {
        Source::Text(xml) => match load_with_origin(xml.as_str(), origin) {
            Ok(groups) => Ok(groups),
            Err(e) => Err(e.message()),
        },
        Source::Unreadable(why) => Err(why.clone()),
        _ => {
            let groups: Vec<MacroGroup> = Vec::new();
            assert(group_states(groups@) =~= Seq::empty());
            Ok(groups)
        },
    }
}

/// Puts the organisation file (if configured) and the personal file together.
///
/// Organisation macros come first and keep their own groups. A personal group
/// whose name matches an organisation group is merged into it, so the panel
/// does not show "Debug" twice; within a merged group the personal entries
/// follow the shared ones.
///
/// A missing organisation file is not an error: colleagues who are off the
/// network still get their personal macros. Each file that did not load is
/// named in one problem.
pub fn load_all(org: &Source, personal: &Source) -> (report: LoadReport)
    ensures
        group_states(report.groups@) == merged(
            groups_from(*org, Origin::Organization),
            groups_from(*personal, Origin::Personal),
        ),
        texts(report.problems@) == shared_problems(*org) + personal_problems(*personal),
{
    let mut groups: Vec<MacroGroup> = Vec::new();
    let mut problems: Vec<String> = Vec::new();
    assert(texts(problems@) =~= Seq::empty());
    assert(group_states(groups@) =~= Seq::empty());
    match read_source(org, Origin::Organization) {
        Ok(read) => {
            groups = read;
            if let Source::Missing(path) = org {
                let mut text = String::new();
                text.append("Organization macros not found at ");
                text.append(path.as_str());
                text.append(" — using personal macros only.");
                assert(text@ =~= "Organization macros not found at "@ + path@
                    + " — using personal macros only."@);
                problems.push(text);
            }
        },
        Err(why) => {
            let mut text = String::new();
            text.append("Organization macros could not be read: ");
            text.append(why.as_str());
            assert(text@ =~= "Organization macros could not be read: "@ + why@);
            problems.push(text);
        },
    }
    assert(texts(problems@) =~= shared_problems(*org));
    match read_source(personal, Origin::Personal) {
        Ok(read) => {
            merge(&mut groups, read);
            if let Source::Missing(path) = personal {
                let mut text = String::new();
                text.append("Personal macros could not be read: not found at ");
                text.append(path.as_str());
                assert(text@ =~= "Personal macros could not be read: not found at "@ + path@);
                problems.push(text);
            }
            assert(texts(problems@) =~= shared_problems(*org) + personal_problems(*personal));
        },
        Err(why) => {
            assert(merged(group_states(groups@), Seq::empty()) == group_states(groups@));
            let mut text = String::new();
            text.append("Personal macros could not be read: ");
            text.append(why.as_str());
            assert(text@ =~= "Personal macros could not be read: "@ + why@);
            problems.push(text);
            assert(texts(problems@) =~= shared_problems(*org) + personal_problems(*personal));
        },
    }
    LoadReport { groups, problems }
}

/// Whether a file gave its macros, or has none to give because none is
/// configured.
pub open spec fn loads(file: Source) -> bool {
    match file {
        Source::NotConfigured => true,
        Source::Text(xml) => meaning(xml@) is Ok,
        _ => false,
    }
}

/// There is one problem for each file that did not load, and none for one that
/// did.
pub proof fn every_file_that_fails_is_named(file: Source)
    ensures
        shared_problems(file).len() == if loads(file) {
            0int
        } else {
            1
        },
        personal_problems(file).len() == if loads(file) {
            0int
        } else {
            1
        },
{
}

// ---- writing ------------------------------------------------------------

/// What a character becomes in XML.
pub open spec fn escaped_char(c: char) -> Seq<char> {
    if c == '&' {
        "&amp;"@
    } else if c == '<' {
        "&lt;"@
    } else if c == '>' {
        "&gt;"@
    } else if c == '"' {
        "&quot;"@
    } else {
        seq![c]
    }
}

pub open spec fn escaped(s: Seq<char>) -> Seq<char>
    decreases s.len(),
{
    if s.len() == 0 {
        Seq::empty()
    } else {
        escaped(s.drop_last()) + escaped_char(s.last())
    }
}

fn push_escaped(out: &mut String, text: &str)
    ensures
        final(out)@ == old(out)@ + escaped(text@),
{
    let chars = chars_of(text);
    let mut i: usize = 0;
    while i < chars.len()
        invariant
            i <= chars@.len(),
            chars@ == text@,
            out@ =~= old(out)@ + escaped(text@.take(i as int)),
        decreases chars.len() - i,
    {
        assert(text@.take(i + 1).drop_last() =~= text@.take(i as int));
        match chars[i] {
            '&' => out.append("&amp;"),
            '<' => out.append("&lt;"),
            '>' => out.append("&gt;"),
            '"' => out.append("&quot;"),
            c => out.push(c),
        }
        i += 1;
    }
    assert(text@.take(i as int) =~= text@);
}

/// An attribute as it is written: ` name="value"`.
pub open spec fn xml_attr(head: Seq<char>, value: Seq<char>) -> Seq<char> {
    head + escaped(value) + "\""@
}

fn push_attr(out: &mut String, head: &str, value: &str)
    ensures
        final(out)@ == old(out)@ + xml_attr(head@, value@),
{
    out.append(head);
    push_escaped(out, value);
    out.append("\"");
    assert(out@ =~= old(out)@ + xml_attr(head@, value@));
}

pub open spec fn xml_param(p: ParamState) -> Seq<char> {
    xml_attr("      <param name=\""@, p.name) + (if p.prompt.len() > 0 && p.prompt != p.name {
        xml_attr(" prompt=\""@, p.prompt)
    } else {
        Seq::empty()
    }) + (if p.default.len() > 0 {
        xml_attr(" default=\""@, p.default)
    } else {
        Seq::empty()
    }) + "/>\n"@
}

fn push_param(out: &mut String, p: &Param)
    ensures
        final(out)@ == old(out)@ + xml_param(p@),
{
    push_attr(out, "      <param name=\"", p.name.as_str());
    if !p.prompt.as_str().is_empty() && !same(p.prompt.as_str(), p.name.as_str()) {
        push_attr(out, " prompt=\"", p.prompt.as_str());
    }
    if !p.default.as_str().is_empty() {
        push_attr(out, " default=\"", p.default.as_str());
    }
    out.append("/>\n");
    assert(out@ =~= old(out)@ + xml_param(p@));
}

pub open spec fn xml_params(params: Seq<ParamState>) -> Seq<char>
    decreases params.len(),
{
    if params.len() == 0 {
        Seq::empty()
    } else {
        xml_params(params.drop_last()) + xml_param(params.last())
    }
}

pub open spec fn xml_lines(lines: Seq<Seq<char>>) -> Seq<char>
    decreases lines.len(),
{
    if lines.len() == 0 {
        Seq::empty()
    } else {
        xml_lines(lines.drop_last()) + "        "@ + escaped(lines.last()) + "\n"@
    }
}

/// A body on one line if it is one line, else each on a line of its own.
pub open spec fn xml_body(body: Seq<Seq<char>>) -> Seq<char> {
    "      <body>"@ + (if body.len() == 1 {
        escaped(body[0])
    } else {
        "\n"@ + xml_lines(body) + "      "@
    }) + "</body>\n    </macro>\n"@
}

fn push_body(out: &mut String, body: &Vec<String>)
    ensures
        final(out)@ == old(out)@ + xml_body(texts(body@)),
{
    let ghost want = texts(body@);
    out.append("      <body>");
    if body.len() == 1 {
        push_escaped(out, body[0].as_str());
    } else {
        out.append("\n");
        let ghost start = out@;
        let mut i: usize = 0;
        assert(want.take(0) =~= Seq::empty());
        while i < body.len()
            invariant
                i <= body@.len(),
                want == texts(body@),
                out@ =~= start + xml_lines(want.take(i as int)),
            decreases body.len() - i,
        {
            assert(want.take(i + 1).drop_last() =~= want.take(i as int));
            out.append("        ");
            push_escaped(out, body[i].as_str());
            out.append("\n");
            i += 1;
        }
        assert(want.take(i as int) =~= want);
        out.append("      ");
    }
    out.append("</body>\n    </macro>\n");
    assert(out@ =~= old(out)@ + xml_body(want));
}

/// The attributes of a macro that may be missing. What is not set is not
/// written, so a file that has never used one comes back out as it went in.
pub open spec fn xml_macro_texts(m: MacroState) -> Seq<char> {
    (if m.description.len() > 0 {
        xml_attr(" description=\""@, m.description)
    } else {
        Seq::empty()
    }) + (match m.key {
        Some(key) => xml_attr(" key=\""@, key),
        None => Seq::empty(),
    })
}

pub open spec fn xml_macro_flags(m: MacroState) -> Seq<char> {
    (if m.confirm {
        " confirm=\"true\""@
    } else {
        Seq::empty()
    }) + (if m.hide_command {
        " hide_command=\"true\""@
    } else {
        Seq::empty()
    })
}

/// The opening tag of a macro.
pub open spec fn xml_macro_tag(m: MacroState) -> Seq<char> {
    xml_attr("    <macro name=\""@, m.name) + xml_macro_texts(m) + xml_macro_flags(m) + ">\n"@
}

fn push_macro_texts(out: &mut String, m: &Macro)
    ensures
        final(out)@ == old(out)@ + xml_macro_texts(m@),
{
    if !m.description.as_str().is_empty() {
        push_attr(out, " description=\"", m.description.as_str());
    }
    if let Some(key) = &m.key {
        push_attr(out, " key=\"", key.as_str());
    }
    assert(out@ =~= old(out)@ + xml_macro_texts(m@));
}

fn push_macro_flags(out: &mut String, m: &Macro)
    ensures
        final(out)@ == old(out)@ + xml_macro_flags(m@),
{
    if m.confirm {
        out.append(" confirm=\"true\"");
    }
    if m.hide_command {
        out.append(" hide_command=\"true\"");
    }
    assert(out@ =~= old(out)@ + xml_macro_flags(m@));
}

fn push_macro_tag(out: &mut String, m: &Macro)
    ensures
        final(out)@ == old(out)@ + xml_macro_tag(m@),
{
    push_attr(out, "    <macro name=\"", m.name.as_str());
    push_macro_texts(out, m);
    push_macro_flags(out, m);
    out.append(">\n");
    assert(out@ =~= old(out)@ + xml_macro_tag(m@));
}

pub open spec fn xml_macro(m: MacroState) -> Seq<char> {
    xml_macro_tag(m) + xml_params(m.params) + xml_body(m.body)
}

fn push_macro(out: &mut String, m: &Macro)
    ensures
        final(out)@ == old(out)@ + xml_macro(m@),
{
    push_macro_tag(out, m);
    let ghost start = out@;
    let ghost want = m@.params;
    let mut i: usize = 0;
    assert(want.take(0) =~= Seq::empty());
    while i < m.params.len()
        invariant
            i <= m.params@.len(),
            want == m@.params,
            out@ =~= start + xml_params(want.take(i as int)),
        decreases m.params.len() - i,
    {
        assert(want.take(i + 1).drop_last() =~= want.take(i as int));
        push_param(out, &m.params[i]);
        i += 1;
    }
    assert(want.take(i as int) =~= want);
    push_body(out, &m.body);
    assert(out@ =~= old(out)@ + xml_macro(m@));
}

/// The personal ones among a run of macros.
pub open spec fn personal(macros: Seq<MacroState>) -> Seq<MacroState>
    decreases macros.len(),
{
    if macros.len() == 0 {
        Seq::empty()
    } else if macros.last().origin == Origin::Personal {
        personal(macros.drop_last()).push(macros.last())
    } else {
        personal(macros.drop_last())
    }
}

pub open spec fn xml_macros(macros: Seq<MacroState>) -> Seq<char>
    decreases macros.len(),
{
    if macros.len() == 0 {
        Seq::empty()
    } else {
        xml_macros(macros.drop_last()) + xml_macro(macros.last())
    }
}

/// A group as it is written: nothing at all if nothing in it is personal.
pub open spec fn xml_group(g: GroupState) -> Seq<char> {
    if personal(g.macros).len() == 0 {
        Seq::empty()
    } else {
        xml_attr("  <group name=\""@, g.name) + ">\n"@ + xml_macros(personal(g.macros))
            + "  </group>\n"@
    }
}

fn push_group(out: &mut String, g: &MacroGroup)
    ensures
        final(out)@ == old(out)@ + xml_group(g@),
{
    let ghost want = g@.macros;
    let mut inner = String::new();
    let mut any = false;
    let mut i: usize = 0;
    assert(want.take(0) =~= Seq::empty());
    while i < g.macros.len()
        invariant
            i <= g.macros@.len(),
            want == g@.macros,
            inner@ =~= xml_macros(personal(want.take(i as int))),
            any == (personal(want.take(i as int)).len() > 0),
        decreases g.macros.len() - i,
    {
        assert(want.take(i + 1).drop_last() =~= want.take(i as int));
        if g.macros[i].origin.is_editable() {
            let ghost before = personal(want.take(i as int));
            assert(before.push(want[i as int]).drop_last() =~= before);
            push_macro(&mut inner, &g.macros[i]);
            any = true;
        }
        i += 1;
    }
    assert(want.take(i as int) =~= want);
    if any {
        push_attr(out, "  <group name=\"", g.name.as_str());
        out.append(">\n");
        out.append(inner.as_str());
        out.append("  </group>\n");
    }
    assert(out@ =~= old(out)@ + xml_group(g@));
}

pub open spec fn xml_groups(groups: Seq<GroupState>) -> Seq<char>
    decreases groups.len(),
{
    if groups.len() == 0 {
        Seq::empty()
    } else {
        xml_groups(groups.drop_last()) + xml_group(groups.last())
    }
}

/// The personal macros of some groups as a document.
pub open spec fn xml_document(groups: Seq<GroupState>) -> Seq<char> {
    "<?xml version=\"1.0\" encoding=\"utf-8\"?>\n<macros>\n"@ + xml_groups(groups) + "</macros>\n"@
}

/// Serialises personal macros back to XML.
///
/// Only personal macros are written: the organisation file is shared and must
/// never be rewritten from here, and a macro that came from it would silently
/// become a local copy if it were.
pub fn to_xml(groups: &[MacroGroup]) -> (out: String)
    ensures
        out@ == xml_document(group_states(groups@)),
{
    let mut out = String::new();
    out.append("<?xml version=\"1.0\" encoding=\"utf-8\"?>\n<macros>\n");
    let ghost start = out@;
    let ghost want = group_states(groups@);
    let mut i: usize = 0;
    assert(want.take(0) =~= Seq::empty());
    while i < groups.len()
        invariant
            i <= groups@.len(),
            want == group_states(groups@),
            out@ =~= start + xml_groups(want.take(i as int)),
        decreases groups.len() - i,
    {
        assert(want.take(i + 1).drop_last() =~= want.take(i as int));
        push_group(&mut out, &groups[i]);
        i += 1;
    }
    assert(want.take(i as int) =~= want);
    out.append("</macros>\n");
    assert(out@ =~= xml_document(want));
    out
}

// ---- the file as shipped ------------------------------------------------

/// Written as the personal macro file on first run, so the format is
/// self-documenting. The organisation file uses the same schema but is never
/// created here: it is provided and maintained centrally.
pub const SAMPLE: &'static str = r#"<?xml version="1.0" encoding="utf-8"?>
<!--
  Personal macros for newIrisTerminal.

  This file is yours: the app can edit it. Macros supplied by the
  organisation live in a separate file, configured in Settings, and are
  shown read-only alongside these.

  {{name}} placeholders are filled in from <param> before sending.
  confirm="true" asks for a yes/no before anything is sent - use it for
  anything that writes, since RDB* databases are shared with the team.

  hide_command="true" keeps the body out of the macro panel, for a command
  that carries a password. Note that IRIS still echoes what it is sent, so
  the text can reach the screen and the transcript by that route.

  key="Ctrl+Shift+G" binds a shortcut. It needs a modifier, and it only
  fires while the terminal has focus. No macro here claims one by default.
-->
<macros>
  <group name="Macros">
    <macro name="Developer Tools (Exec)">
      <body>do ##class(SrcPub.Cmd).Exec()</body>
    </macro>
  </group>
</macros>
"#;

/// What was shipped before [`SAMPLE`], kept so an untouched first-run file can
/// be replaced when the shipped set changes.
///
/// Matched character for character, which is the whole safeguard: the moment
/// the user edits the file it stops matching and is left alone forever.
pub const RETIRED_SAMPLES: [&'static str; 1] = [r#"<?xml version="1.0" encoding="utf-8"?>
<!--
  Personal macros for newIrisTerminal.

  This file is yours: the app can edit it. Macros supplied by the
  organisation live in a separate file, configured in Settings, and are
  shown read-only alongside these.

  {{name}} placeholders are filled in from <param> before sending.
  confirm="true" asks for a yes/no before anything is sent - use it for
  anything that writes, since RDB* databases are shared with the team.

  hide_command="true" keeps the body out of the macro panel, for a command
  that carries a password. Note that IRIS still echoes what it is sent, so
  the text can reach the screen and the transcript by that route.

  key="Ctrl+Shift+G" binds a shortcut. It needs a modifier, and it only
  fires while the terminal has focus.
-->
<macros>
  <group name="Inspect">
    <macro name="Show global" key="Ctrl+Shift+G" description="ZWRITE a global">
      <param name="global" prompt="Global name (without ^)" default="CSW1"/>
      <body>ZWRITE ^{{global}}</body>
    </macro>
    <macro name="Current namespace" description="Show where we are">
      <body>Write $NAMESPACE,!</body>
    </macro>
  </group>

  <group name="Navigate">
    <macro name="Switch namespace" key="Ctrl+Shift+N">
      <param name="ns" prompt="Namespace" default="USER"/>
      <body>ZN "{{ns}}"</body>
    </macro>
  </group>

  <group name="Danger">
    <macro name="Kill a global" confirm="true"
           description="Deletes data - shared database, confirm carefully">
      <param name="global" prompt="Global to KILL (without ^)"/>
      <body>KILL ^{{global}}</body>
    </macro>
  </group>
</macros>
"#];

/// Whether the personal file is to be written with [`SAMPLE`]: it is missing or
/// unreadable, or still exactly as shipped before. A file the user has touched
/// is never rewritten.
pub fn wants_sample(current: Option<&str>) -> (yes: bool)
    ensures
        yes == match current {
            Some(text) => text@ == RETIRED_SAMPLES@[0]@,
            None => true,
        },
{
    match current {
        Some(text) => same(text, RETIRED_SAMPLES[0]),
        None => true,
    }
}

// ---- laws ---------------------------------------------------------------

proof fn personal_twice(macros: Seq<MacroState>)
    ensures
        personal(personal(macros)) == personal(macros),
        forall|i: int|
            0 <= i < personal(macros).len() ==> (#[trigger] personal(macros)[i]).origin
                == Origin::Personal,
    decreases macros.len(),
{
    if macros.len() > 0 {
        personal_twice(macros.drop_last());
        if macros.last().origin == Origin::Personal {
            let before = personal(macros.drop_last());
            assert(before.push(macros.last()).drop_last() =~= before);
        }
    }
}

/// A shared macro leaves no trace in what is written: the document is the one
/// that would be written if the group held the personal macros alone.
pub proof fn only_personal_macros_are_written(g: GroupState)
    ensures
        xml_group(g) == xml_group(GroupState { macros: personal(g.macros), ..g }),
        (forall|i: int|
            0 <= i < g.macros.len() ==> (#[trigger] g.macros[i]).origin == Origin::Organization)
            ==> xml_group(g).len() == 0,
{
    personal_twice(g.macros);
    if forall|i: int|
        0 <= i < g.macros.len() ==> (#[trigger] g.macros[i]).origin == Origin::Organization {
        none_personal(g.macros);
    }
}

proof fn none_personal(macros: Seq<MacroState>)
    requires
        forall|i: int|
            0 <= i < macros.len() ==> (#[trigger] macros[i]).origin == Origin::Organization,
    ensures
        personal(macros).len() == 0,
    decreases macros.len(),
{
    if macros.len() > 0 {
        assert(macros.last() == macros[macros.len() - 1]);
        none_personal(macros.drop_last());
    }
}

/// Whether no two groups share a name.
pub open spec fn names_differ(groups: Seq<GroupState>) -> bool {
    forall|i: int, j: int|
        0 <= i < j < groups.len() ==> (#[trigger] groups[i]).name != (#[trigger] groups[j]).name
}

proof fn group_named_finds(groups: Seq<GroupState>, name: Seq<char>, from: int)
    requires
        0 <= from <= groups.len(),
    ensures
        match group_named(groups, name, from) {
            Some(i) => from <= i < groups.len() && groups[i].name == name,
            None => forall|i: int|
                from <= i < groups.len() ==> (#[trigger] groups[i]).name != name,
        },
    decreases groups.len() - from,
{
    if from < groups.len() && groups[from].name != name {
        group_named_finds(groups, name, from + 1);
    }
}

/// Merging does not show a group twice: if no two groups shared a name before,
/// none do afterwards, and the groups that were there stay where they were with
/// everything that was in them.
pub proof fn merging_keeps_names_apart(into: Seq<GroupState>, extra: Seq<GroupState>)
    requires
        names_differ(into),
    ensures
        names_differ(merged(into, extra)),
        merged(into, extra).len() >= into.len(),
        forall|i: int|
            0 <= i < into.len() ==> {
                let g = #[trigger] merged(into, extra)[i];
                &&& g.name == into[i].name
                &&& g.macros.len() >= into[i].macros.len()
                &&& g.macros.take(into[i].macros.len() as int) == into[i].macros
            },
    decreases extra.len(),
{
    if extra.len() == 0 {
        assert forall|i: int| 0 <= i < into.len() implies (#[trigger] into[i]).macros.take(
            into[i].macros.len() as int,
        ) == into[i].macros by {
            assert(into[i].macros.take(into[i].macros.len() as int) =~= into[i].macros);
        }
    } else {
        let before = merged(into, extra.drop_last());
        let group = extra.last();
        merging_keeps_names_apart(into, extra.drop_last());
        group_named_finds(before, group.name, 0);
        let after = merged(into, extra);
        assert forall|i: int| 0 <= i < into.len() implies {
            let g = #[trigger] after[i];
            &&& g.name == into[i].name
            &&& g.macros.len() >= into[i].macros.len()
            &&& g.macros.take(into[i].macros.len() as int) == into[i].macros
        } by {
            assert(before[i].name == into[i].name);
            if after[i] != before[i] {
                assert(after[i].macros == before[i].macros + group.macros);
                assert(after[i].macros.take(into[i].macros.len() as int)
                    =~= before[i].macros.take(into[i].macros.len() as int));
            }
        }
    }
}

/// Filling in a parameter leaves a line alone that does not ask for it: an
/// unknown placeholder is sent as it stands.
pub proof fn what_is_not_asked_for_is_left_alone(line: Seq<char>, name: Seq<char>, value: Seq<char>)
    requires
        !occurs(line, placeholder(name)),
    ensures
        replaced(line, placeholder(name), value) == line,
    decreases line.len(),
{
    let pat = placeholder(name);
    if line.len() >= pat.len() {
        assert(line.take(pat.len() as int) =~= line.subrange(0int, 0int + pat.len()));
        let rest = line.skip(1);
        if occurs(rest, pat) {
            let i = choose|i: int|
                0 <= i && i + pat.len() <= rest.len() && #[trigger] rest.subrange(
                    i,
                    i + pat.len(),
                ) == pat;
            assert(line.subrange(i + 1, i + 1 + pat.len()) =~= rest.subrange(i, i + pat.len()));
        }
        what_is_not_asked_for_is_left_alone(rest, name, value);
        assert(seq![line[0]] + rest =~= line);
    }
}

/// Whether nothing that could be sent has been read.
spec fn nothing_to_send(p: Progress) -> bool {
    &&& p.loose.len() == 0
    &&& p.group matches Some(g) ==> g.macros.len() == 0
    &&& forall|i: int| 0 <= i < p.groups.len() ==> (#[trigger] p.groups[i]).macros.len() == 0
}

/// A macro that is never closed is never loaded: a file cut off in the middle
/// of one does not make a half-read body ready to send.
pub proof fn an_unclosed_macro_is_not_loaded(events: Seq<EventState>)
    requires
        forall|i: int|
            0 <= i < events.len() ==> #[trigger] events[i] != EventState::Close("macro"@),
    ensures
        forall|i: int|
            0 <= i < progress(events).finish().len() ==> (#[trigger] progress(
                events,
            ).finish()[i]).macros.len() == 0,
{
    nothing_is_read(events);
}

proof fn nothing_is_read(events: Seq<EventState>)
    requires
        forall|i: int|
            0 <= i < events.len() ==> #[trigger] events[i] != EventState::Close("macro"@),
    ensures
        nothing_to_send(progress(events)),
    decreases events.len(),
{
    if events.len() > 0 {
        reveal_strlit("group");
        reveal_strlit("macro");
        assert("group"@[0] != "macro"@[0]);
        assert(events.last() == events[events.len() - 1]);
        nothing_is_read(events.drop_last());
    }
}

/// Every line of a body has something on it and nothing around it.
pub proof fn body_lines_are_trimmed(text: Seq<char>)
    ensures
        forall|i: int|
            0 <= i < lines_of(text).len() ==> (#[trigger] lines_of(text)[i]).len() > 0 && trim(
                lines_of(text)[i],
            ) == lines_of(text)[i],
{
    kept_lines_are_trimmed(split(text, '\n'));
}

proof fn kept_lines_are_trimmed(pieces: Seq<Seq<char>>)
    ensures
        forall|i: int|
            0 <= i < kept_lines(pieces).len() ==> (#[trigger] kept_lines(pieces)[i]).len() > 0
                && trim(kept_lines(pieces)[i]) == kept_lines(pieces)[i],
    decreases pieces.len(),
{
    if pieces.len() > 0 {
        kept_lines_are_trimmed(pieces.drop_last());
        trim_is_idempotent(pieces.last());
        let before = kept_lines(pieces.drop_last());
        let all = kept_lines(pieces);
        assert forall|i: int| 0 <= i < all.len() implies (#[trigger] all[i]).len() > 0 && trim(
            all[i],
        ) == all[i] by {
            if i < before.len() {
                assert(all[i] == before[i]);
            } else {
                assert(all[i] == trim(pieces.last()));
            }
        }
    }
}

} // verus!
