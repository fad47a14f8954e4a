//! What a macro file that was written is read back as.

use vstd::prelude::*;

use super::macros::{
    attr_or_empty, attr_set, attr_value, ends_at, escaped, events_before, kept_lines, lines_of,
    macro_of, meaning, param_of, personal, progress, xml_document, GroupState, MacroState, Origin,
    ParamState, Progress,
};
use super::xml::{xml_event, AttrState, EventState};
use crate::text::{joined, joined_is_split_again, trim};

verus! {

// ---- what is written ----------------------------------------------------

/// An attribute with a value.
pub open spec fn attribute(key: Seq<char>, value: Seq<char>) -> AttrState {
    AttrState { key, value: Some(value), raw: escaped(value) }
}

/// An attribute that is written only where it says something.
pub open spec fn optional(says: bool, key: Seq<char>, value: Seq<char>) -> Seq<AttrState> {
    if says {
        seq![attribute(key, value)]
    } else {
        Seq::empty()
    }
}

/// The attributes a parameter is written with.
pub open spec fn param_attrs(p: ParamState) -> Seq<AttrState> {
    seq![attribute("name"@, p.name)] + optional(
        p.prompt.len() > 0 && p.prompt != p.name,
        "prompt"@,
        p.prompt,
    ) + optional(p.default.len() > 0, "default"@, p.default)
}

/// The attributes a macro is written with.
pub open spec fn macro_attrs(m: MacroState) -> Seq<AttrState> {
    seq![attribute("name"@, m.name)] + optional(
        m.description.len() > 0,
        "description"@,
        m.description,
    ) + (match m.key {
        Some(key) => seq![attribute("key"@, key)],
        None => Seq::empty(),
    }) + optional(m.confirm, "confirm"@, "true"@) + optional(
        m.hide_command,
        "hide_command"@,
        "true"@,
    )
}

/// Lines indented, each ended by a line feed.
pub open spec fn indented(lines: Seq<Seq<char>>) -> Seq<char>
    decreases lines.len(),
{
    if lines.len() == 0 {
        Seq::empty()
    } else {
        indented(lines.drop_last()) + "        "@ + lines.last() + "\n"@
    }
}

/// The text between the tags of a body.
pub open spec fn body_text(body: Seq<Seq<char>>) -> Seq<char> {
    if body.len() == 1 {
        body[0]
    } else {
        "\n"@ + indented(body) + "      "@
    }
}

pub open spec fn param_events(params: Seq<ParamState>) -> Seq<EventState> {
    params.map_values(|p: ParamState| EventState::Empty("param"@, param_attrs(p)))
}

/// The tags and the text that a macro is written as.
pub open spec fn macro_events(m: MacroState) -> Seq<EventState> {
    seq![EventState::Open("macro"@, macro_attrs(m))] + param_events(m.params) + seq![
        EventState::Open("body"@, Seq::empty()),
        EventState::Text(Some(body_text(m.body))),
        EventState::Close("body"@),
        EventState::Close("macro"@),
    ]
}

pub open spec fn macros_events(macros: Seq<MacroState>) -> Seq<EventState>
    decreases macros.len(),
{
    if macros.len() == 0 {
        Seq::empty()
    } else {
        macros_events(macros.drop_last()) + macro_events(macros.last())
    }
}

pub open spec fn group_events(g: GroupState) -> Seq<EventState> {
    if personal(g.macros).len() == 0 {
        Seq::empty()
    } else {
        seq![EventState::Open("group"@, seq![attribute("name"@, g.name)])] + macros_events(
            personal(g.macros),
        ) + seq![EventState::Close("group"@)]
    }
}

pub open spec fn groups_events(groups: Seq<GroupState>) -> Seq<EventState>
    decreases groups.len(),
{
    if groups.len() == 0 {
        Seq::empty()
    } else {
        groups_events(groups.drop_last()) + group_events(groups.last())
    }
}

/// The tags and the texts that a document is written as.
pub open spec fn document_events(groups: Seq<GroupState>) -> Seq<EventState> {
    seq![EventState::Open("macros"@, Seq::empty())] + groups_events(groups) + seq![
        EventState::Close("macros"@),
    ]
}

/// What of some groups is written: the personal macros, in the groups that have
/// any.
pub open spec fn written(groups: Seq<GroupState>) -> Seq<GroupState>
    decreases groups.len(),
{
    if groups.len() == 0 {
        Seq::empty()
    } else {
        let before = written(groups.drop_last());
        let macros = personal(groups.last().macros);
        if macros.len() == 0 {
            before
        } else {
            before.push(
                GroupState { name: groups.last().name, origin: Origin::Personal, macros },
            )
        }
    }
}

// ---- what comes back ----------------------------------------------------

/// Whether a line of a body comes back as it was written: it is one line, with
/// something on it and no white space at its ends.
pub open spec fn keeps_line(line: Seq<char>) -> bool {
    line.len() > 0 && trim(line) == line && !line.contains('\n')
}

/// Whether a macro comes back as it was written: every line of its body does, a
/// shortcut is one, and every parameter is asked for by something.
pub open spec fn keeps_macro(m: MacroState) -> bool {
    &&& forall|i: int| 0 <= i < m.body.len() ==> keeps_line(#[trigger] m.body[i])
    &&& m.key matches Some(key) ==> key.len() > 0
    &&& forall|i: int| 0 <= i < m.params.len() ==> (#[trigger] m.params[i]).prompt.len() > 0
}

pub open spec fn keeps_groups(groups: Seq<GroupState>) -> bool {
    forall|i: int, k: int|
        0 <= i < groups.len() && 0 <= k < personal(groups[i].macros).len() ==> keeps_macro(
            #[trigger] personal(groups[i].macros)[k],
        )
}

/// The events that a document is made of, without what stands between its tags.
pub open spec fn solid(events: Seq<EventState>) -> Seq<EventState>
    decreases events.len(),
{
    if events.len() == 0 {
        Seq::empty()
    } else {
        let before = solid(events.drop_last());
        match events.last() {
            EventState::Open(_, _) | EventState::Empty(_, _) | EventState::Close(_) => before.push(events.last()),
            EventState::Text(_) | EventState::CData(_) => if progress(
                events.drop_last(),
            ).in_body {
                before.push(events.last())
            } else {
                before
            },
            _ => before,
        }
    }
}

proof fn only_what_is_solid_counts(events: Seq<EventState>)
    ensures
        progress(solid(events)) == progress(events),
    decreases events.len(),
{
    if events.len() > 0 {
        only_what_is_solid_counts(events.drop_last());
        let before = solid(events.drop_last());
        assert(before.push(events.last()).drop_last() =~= before);
    }
}

/// Reading on from some point.
spec fn onward(from: Progress, events: Seq<EventState>) -> Progress
    decreases events.len(),
{
    if events.len() == 0 {
        from
    } else {
        onward(from, events.drop_last()).step(events.last())
    }
}

proof fn onward_in_pieces(from: Progress, a: Seq<EventState>, b: Seq<EventState>)
    ensures
        onward(from, a + b) == onward(onward(from, a), b),
    decreases b.len(),
{
    if b.len() == 0 {
        assert(a + b =~= a);
    } else {
        onward_in_pieces(from, a, b.drop_last());
        assert((a + b).drop_last() =~= a + b.drop_last());
    }
}

proof fn onward_from_the_start(events: Seq<EventState>)
    ensures
        progress(events) == onward(Progress::start(), events),
    decreases events.len(),
{
    if events.len() > 0 {
        onward_from_the_start(events.drop_last());
    }
}

proof fn onward_one(from: Progress, event: EventState)
    ensures
        onward(from, seq![event]) == from.step(event),
{
    reveal_with_fuel(onward, 2);
    assert(seq![event].drop_last() =~= Seq::empty());
}

proof fn tags_differ()
    ensures
        "macro"@ != "group"@,
        "param"@ != "group"@,
        "param"@ != "macro"@,
        "body"@ != "group"@,
        "body"@ != "macro"@,
        "body"@ != "param"@,
        "macros"@ != "group"@,
        "macros"@ != "macro"@,
        "macros"@ != "param"@,
        "macros"@ != "body"@,
{
    reveal_strlit("macro");
    reveal_strlit("group");
    reveal_strlit("param");
    reveal_strlit("body");
    reveal_strlit("macros");
    assert("macro"@[0] == 'm' && "group"@[0] == 'g' && "param"@[0] == 'p');
    assert("body"@.len() == 4 && "macros"@.len() == 6 && "macro"@.len() == 5);
}

proof fn keys_differ()
    ensures
        "name"@.len() == 4,
        "description"@.len() == 11,
        "key"@.len() == 3,
        "confirm"@.len() == 7,
        "hide_command"@.len() == 12,
        "prompt"@.len() == 6,
        "default"@.len() == 7,
{
    reveal_strlit("name");
    reveal_strlit("description");
    reveal_strlit("key");
    reveal_strlit("confirm");
    reveal_strlit("hide_command");
    reveal_strlit("prompt");
    reveal_strlit("default");
}

/// An attribute is looked up past the ones of other names.
proof fn looked_up_past(before: Seq<AttrState>, after: Seq<AttrState>, key: Seq<char>)
    requires
        forall|i: int| 0 <= i < before.len() ==> (#[trigger] before[i]).key != key,
    ensures
        attr_value(before + after, key) == attr_value(after, key),
    decreases before.len(),
{
    if before.len() == 0 {
        assert(before + after =~= after);
    } else {
        assert((before + after)[0].key != key);
        assert((before + after).skip(1) =~= before.skip(1) + after);
        assert forall|i: int| 0 <= i < before.skip(1).len() implies (#[trigger] before.skip(
            1,
        )[i]).key != key by {
            assert(before.skip(1)[i] == before[i + 1]);
        }
        looked_up_past(before.skip(1), after, key);
    }
}

/// An attribute that is not there is not found.
proof fn not_looked_up(attrs: Seq<AttrState>, key: Seq<char>)
    requires
        forall|i: int| 0 <= i < attrs.len() ==> (#[trigger] attrs[i]).key != key,
    ensures
        attr_value(attrs, key) is None,
{
    looked_up_past(attrs, Seq::empty(), key);
    assert(attrs + Seq::empty() =~= attrs);
}

proof fn a_param_is_read_back(p: ParamState)
    requires
        p.prompt.len() > 0,
    ensures
        param_of(param_attrs(p)) == p,
{
    keys_differ();
    let name = seq![attribute("name"@, p.name)];
    let prompt = optional(p.prompt.len() > 0 && p.prompt != p.name, "prompt"@, p.prompt);
    let default = optional(p.default.len() > 0, "default"@, p.default);
    let attrs = param_attrs(p);
    assert(attrs[0].key == "name"@);
    assert(attrs =~= name + (prompt + default));
    looked_up_past(name, prompt + default, "prompt"@);
    looked_up_past(name + prompt, default, "default"@);
    assert(attrs =~= (name + prompt) + default);
    if prompt.len() == 0 {
        not_looked_up(prompt + default, "prompt"@);
    } else {
        assert((prompt + default)[0] == attribute("prompt"@, p.prompt));
    }
    if default.len() == 0 {
        not_looked_up(default, "default"@);
        assert(p.default =~= Seq::empty());
    }
}

proof fn a_macro_tag_is_read_back(m: MacroState)
    requires
        m.origin == Origin::Personal,
        m.key matches Some(key) ==> key.len() > 0,
    ensures
        macro_of(macro_attrs(m)) == (MacroState {
            params: Seq::empty(),
            body: Seq::empty(),
            ..m
        }),
{
    keys_differ();
    let name = seq![attribute("name"@, m.name)];
    let description = optional(m.description.len() > 0, "description"@, m.description);
    let key = match m.key {
        Some(key) => seq![attribute("key"@, key)],
        None => Seq::empty(),
    };
    let confirm = optional(m.confirm, "confirm"@, "true"@);
    let hide = optional(m.hide_command, "hide_command"@, "true"@);
    let attrs = macro_attrs(m);
    assert(attrs[0].key == "name"@);
    assert(attrs =~= name + (description + (key + (confirm + hide))));
    assert(attrs =~= (name + description) + (key + (confirm + hide)));
    assert(attrs =~= (name + description + key) + (confirm + hide));
    assert(attrs =~= (name + description + key + confirm) + hide);
    looked_up_past(name, description + (key + (confirm + hide)), "description"@);
    looked_up_past(name + description, key + (confirm + hide), "key"@);
    looked_up_past(name + description + key, confirm + hide, "confirm"@);
    looked_up_past(name + description + key + confirm, hide, "hide_command"@);
    if description.len() == 0 {
        not_looked_up(description + (key + (confirm + hide)), "description"@);
        assert(m.description =~= Seq::empty());
    } else {
        assert((description + (key + (confirm + hide)))[0] == description[0]);
    }
    if key.len() == 0 {
        not_looked_up(key + (confirm + hide), "key"@);
    } else {
        assert((key + (confirm + hide))[0] == key[0]);
    }
    if confirm.len() == 0 {
        not_looked_up(confirm + hide, "confirm"@);
    } else {
        assert((confirm + hide)[0] == confirm[0]);
    }
    if hide.len() == 0 {
        not_looked_up(hide, "hide_command"@);
    }
    assert(attr_or_empty(attrs, "name"@) == m.name);
    assert(attr_set(attrs, "confirm"@) == m.confirm);
    assert(attr_set(attrs, "hide_command"@) == m.hide_command);
}

// ---- bodies -------------------------------------------------------------

/// The lines of a body as they stand between its tags.
spec fn laid_out(body: Seq<Seq<char>>) -> Seq<Seq<char>> {
    (seq![Seq::<char>::empty()] + body.map_values(|line: Seq<char>| "        "@ + line)).push(
        "      "@,
    )
}

proof fn the_layout_is_joined(body: Seq<Seq<char>>)
    ensures
        joined(laid_out(body)) == "\n"@ + indented(body) + "      "@,
{
    reveal_strlit("\n");
    let lines = laid_out(body);
    joined_so_far(body);
    assert(lines.drop_last() =~= seq![Seq::<char>::empty()] + body.map_values(
        |line: Seq<char>| "        "@ + line,
    ));
    assert(joined(lines) =~= "\n"@ + indented(body) + "      "@);
}

proof fn joined_so_far(body: Seq<Seq<char>>)
    ensures
        ({
            let lines = seq![Seq::<char>::empty()] + body.map_values(
                |line: Seq<char>| "        "@ + line,
            );
            joined(lines).push('\n') == "\n"@ + indented(body)
        }),
    decreases body.len(),
{
    reveal_strlit("\n");
    let lines = seq![Seq::<char>::empty()] + body.map_values(
        |line: Seq<char>| "        "@ + line,
    );
    if body.len() == 0 {
        assert(lines =~= seq![Seq::<char>::empty()]);
        assert(joined(lines).push('\n') =~= "\n"@ + indented(body));
    } else {
        joined_so_far(body.drop_last());
        let before = seq![Seq::<char>::empty()] + body.drop_last().map_values(
            |line: Seq<char>| "        "@ + line,
        );
        assert(lines.drop_last() =~= before);
        assert(lines.last() == "        "@ + body.last());
        assert(joined(lines) =~= joined(before) + seq!['\n'] + ("        "@ + body.last()));
        assert(joined(lines).push('\n') =~= joined(before).push('\n') + "        "@ + body.last()
            + "\n"@);
        assert("\n"@ + indented(body) =~= ("\n"@ + indented(body.drop_last())) + "        "@
            + body.last() + "\n"@);
    }
}

proof fn blanks_are_trimmed(blanks: Seq<char>, line: Seq<char>)
    requires
        forall|i: int| 0 <= i < blanks.len() ==> #[trigger] blanks[i] == ' ',
        line.len() > 0 ==> trim(line) == line,
    ensures
        trim(blanks + line) == line,
{
    crate::text::trim_drops_leading_blanks(blanks, line);
}

proof fn kept_lines_of_a_layout(body: Seq<Seq<char>>)
    requires
        forall|i: int| 0 <= i < body.len() ==> keeps_line(#[trigger] body[i]),
    ensures
        kept_lines(
            seq![Seq::<char>::empty()] + body.map_values(|line: Seq<char>| "        "@ + line),
        ) == body,
    decreases body.len(),
{
    reveal_strlit("        ");
    let lines = seq![Seq::<char>::empty()] + body.map_values(
        |line: Seq<char>| "        "@ + line,
    );
    if body.len() == 0 {
        reveal_with_fuel(kept_lines, 2);
        assert(lines.drop_last() =~= Seq::empty());
        blanks_are_trimmed(Seq::empty(), Seq::empty());
        assert(Seq::<char>::empty() + Seq::<char>::empty() =~= Seq::<char>::empty());
        assert(kept_lines(lines) =~= body);
    } else {
        assert(keeps_line(body[body.len() - 1]));
        assert forall|i: int| 0 <= i < body.drop_last().len() implies keeps_line(
            #[trigger] body.drop_last()[i],
        ) by {
            assert(keeps_line(body[i]));
        }
        kept_lines_of_a_layout(body.drop_last());
        assert(lines.drop_last() =~= seq![Seq::<char>::empty()] + body.drop_last().map_values(
            |line: Seq<char>| "        "@ + line,
        ));
        assert(lines.last() == "        "@ + body.last());
        blanks_are_trimmed("        "@, body.last());
        assert(body.drop_last().push(body.last()) =~= body);
    }
}

proof fn a_body_is_read_back(body: Seq<Seq<char>>)
    requires
        forall|i: int| 0 <= i < body.len() ==> keeps_line(#[trigger] body[i]),
    ensures
        lines_of(body_text(body)) == body,
{
    reveal_strlit("        ");
    reveal_strlit("      ");
    if body.len() == 1 {
        assert(keeps_line(body[0]));
        joined_is_split_again(body);
        reveal_with_fuel(kept_lines, 2);
        assert(body.drop_last() =~= Seq::empty());
        assert(joined(body) == body[0]);
        assert(kept_lines(body) =~= body);
    } else {
        let lines = laid_out(body);
        the_layout_is_joined(body);
        assert forall|i: int| 0 <= i < lines.len() implies !(#[trigger] lines[i]).contains(
            '\n',
        ) by {
            if 1 <= i < lines.len() - 1 {
                assert(keeps_line(body[i - 1]));
                let line = "        "@ + body[i - 1];
                assert(lines[i] == line);
                assert forall|k: int| 0 <= k < line.len() implies line[k] != '\n' by {
                    if k >= 8 {
                        assert(line[k] == body[i - 1][k - 8]);
                    }
                }
            }
        }
        joined_is_split_again(lines);
        kept_lines_of_a_layout(body);
        assert(lines.drop_last() =~= seq![Seq::<char>::empty()] + body.map_values(
            |line: Seq<char>| "        "@ + line,
        ));
        blanks_are_trimmed("      "@, Seq::empty());
        assert("      "@ + Seq::<char>::empty() =~= "      "@);
        assert(kept_lines(lines) == body);
    }
}

// ---- putting it together ------------------------------------------------

/// Reading is at a place where a macro of a group may come.
spec fn in_group(p: Progress, g: GroupState) -> bool {
    p.group == Some(g) && p.mac is None && !p.in_body
}

proof fn params_are_read_back(p: Progress, m: MacroState, params: Seq<ParamState>)
    requires
        p.mac == Some(m),
        forall|i: int| 0 <= i < params.len() ==> (#[trigger] params[i]).prompt.len() > 0,
    ensures
        onward(p, param_events(params)) == (Progress {
            mac: Some(MacroState { params: m.params + params, ..m }),
            ..p
        }),
    decreases params.len(),
{
    tags_differ();
    if params.len() == 0 {
        assert(param_events(params) =~= Seq::empty());
        assert(m.params + params =~= m.params);
    } else {
        assert forall|i: int| 0 <= i < params.drop_last().len() implies (#[trigger] params.drop_last()[i]).prompt.len()
            > 0 by {
            assert(params[i].prompt.len() > 0);
        }
        params_are_read_back(p, m, params.drop_last());
        assert(param_events(params).drop_last() =~= param_events(params.drop_last()));
        assert(params[params.len() - 1].prompt.len() > 0);
        a_param_is_read_back(params.last());
        assert((m.params + params.drop_last()).push(params.last()) =~= m.params + params);
    }
}

proof fn a_macro_is_read_back(p: Progress, g: GroupState, m: MacroState)
    requires
        in_group(p, g),
        m.origin == Origin::Personal,
        keeps_macro(m),
    ensures
        onward(p, macro_events(m)) == (Progress {
            group: Some(GroupState { macros: g.macros.push(m), ..g }),
            text: body_text(m.body),
            ..p
        }),
{
    tags_differ();
    let tag = EventState::Open("macro"@, macro_attrs(m));
    let e1 = EventState::Open("body"@, Seq::<AttrState>::empty());
    let e2 = EventState::Text(Some(body_text(m.body)));
    let e3 = EventState::Close("body"@);
    let e4 = EventState::Close("macro"@);
    let bare = MacroState { params: Seq::empty(), body: Seq::empty(), ..m };
    let head = seq![tag] + param_events(m.params);
    onward_in_pieces(p, head, seq![e1, e2, e3, e4]);
    onward_in_pieces(p, seq![tag], param_events(m.params));
    onward_one(p, tag);
    a_macro_tag_is_read_back(m);
    let opened = p.step(tag);
    params_are_read_back(opened, bare, m.params);
    assert(bare.params + m.params =~= m.params);
    let q = onward(p, head);
    let full = MacroState { body: Seq::empty(), ..m };
    assert(q == (Progress { mac: Some(full), ..p }));
    let q1 = q.step(e1);
    let q2 = q1.step(e2);
    let q3 = q2.step(e3);
    let q4 = q3.step(e4);
    onward_in_pieces(q, seq![e1], seq![e2, e3, e4]);
    onward_in_pieces(q1, seq![e2], seq![e3, e4]);
    onward_in_pieces(q2, seq![e3], seq![e4]);
    assert(seq![e1, e2, e3, e4] =~= seq![e1] + seq![e2, e3, e4]);
    assert(seq![e2, e3, e4] =~= seq![e2] + seq![e3, e4]);
    assert(seq![e3, e4] =~= seq![e3] + seq![e4]);
    onward_one(q, e1);
    onward_one(q1, e2);
    onward_one(q2, e3);
    onward_one(q3, e4);
    assert(Seq::<char>::empty() + body_text(m.body) =~= body_text(m.body));
    assert(q2.text == body_text(m.body));
    a_body_is_read_back(m.body);
    assert(q3.mac == Some(m));
    assert(macro_events(m) =~= head + seq![e1, e2, e3, e4]);
}

/// Where text stands is of no account between bodies.
spec fn like(p: Progress, q: Progress) -> bool {
    p == (Progress { text: p.text, ..q })
}

proof fn macros_are_read_back(p: Progress, g: GroupState, macros: Seq<MacroState>)
    requires
        in_group(p, g),
        forall|i: int|
            0 <= i < macros.len() ==> (#[trigger] macros[i]).origin == Origin::Personal
                && keeps_macro(macros[i]),
    ensures
        like(
            onward(p, macros_events(macros)),
            Progress { group: Some(GroupState { macros: g.macros + macros, ..g }), ..p },
        ),
    decreases macros.len(),
{
    if macros.len() == 0 {
        assert(g.macros + macros =~= g.macros);
    } else {
        assert forall|i: int| 0 <= i < macros.drop_last().len() implies (#[trigger] macros.drop_last()[i]).origin
            == Origin::Personal && keeps_macro(macros.drop_last()[i]) by {
            assert(macros[i].origin == Origin::Personal && keeps_macro(macros[i]));
        }
        macros_are_read_back(p, g, macros.drop_last());
        let q = onward(p, macros_events(macros.drop_last()));
        let n = macros.len() - 1;
        assert(macros[n].origin == Origin::Personal && keeps_macro(macros[n]));
        let so_far = GroupState { macros: g.macros + macros.drop_last(), ..g };
        a_macro_is_read_back(q, so_far, macros.last());
        onward_in_pieces(p, macros_events(macros.drop_last()), macro_events(macros.last()));
        assert((g.macros + macros.drop_last()).push(macros.last()) =~= g.macros + macros);
    }
}

proof fn personal_are_personal(macros: Seq<MacroState>)
    ensures
        forall|i: int|
            0 <= i < personal(macros).len() ==> (#[trigger] personal(macros)[i]).origin
                == Origin::Personal,
    decreases macros.len(),
{
    if macros.len() > 0 {
        personal_are_personal(macros.drop_last());
    }
}

/// Reading is at a place where a group may come.
spec fn between_groups(p: Progress) -> bool {
    p.group is None && p.mac is None && !p.in_body && p.loose.len() == 0
}

proof fn a_group_is_read_back(p: Progress, g: GroupState)
    requires
        between_groups(p),
        forall|k: int|
            0 <= k < personal(g.macros).len() ==> keeps_macro(#[trigger] personal(g.macros)[k]),
    ensures
        like(
            onward(p, group_events(g)),
            Progress {
                groups: if personal(g.macros).len() == 0 {
                    p.groups
                } else {
                    p.groups.push(
                        GroupState {
                            name: g.name,
                            origin: Origin::Personal,
                            macros: personal(g.macros),
                        },
                    )
                },
                ..p
            },
        ),
{
    tags_differ();
    let macros = personal(g.macros);
    if macros.len() > 0 {
        let attrs = seq![attribute("name"@, g.name)];
        let tag = EventState::Open("group"@, attrs);
        let end = EventState::Close("group"@);
        let empty = GroupState { name: g.name, origin: Origin::Personal, macros: Seq::empty() };
        assert(attr_or_empty(attrs, "name"@) == g.name);
        onward_one(p, tag);
        let q = p.step(tag);
        assert(q.group == Some(empty));
        personal_are_personal(g.macros);
        macros_are_read_back(q, empty, macros);
        assert(empty.macros + macros =~= macros);
        onward_in_pieces(p, seq![tag], macros_events(macros));
        let r = onward(q, macros_events(macros));
        onward_in_pieces(p, seq![tag] + macros_events(macros), seq![end]);
        onward_one(r, end);
    }
}

proof fn groups_are_read_back(p: Progress, groups: Seq<GroupState>)
    requires
        between_groups(p),
        keeps_groups(groups),
    ensures
        like(
            onward(p, groups_events(groups)),
            Progress { groups: p.groups + written(groups), ..p },
        ),
    decreases groups.len(),
{
    if groups.len() == 0 {
        assert(p.groups + written(groups) =~= p.groups);
    } else {
        let before = groups.drop_last();
        assert forall|i: int, k: int|
            0 <= i < before.len() && 0 <= k < personal(before[i].macros).len() implies keeps_macro(
            #[trigger] personal(before[i].macros)[k],
        ) by {
            assert(before[i] == groups[i]);
            assert(keeps_macro(personal(groups[i].macros)[k]));
        }
        groups_are_read_back(p, before);
        let q = onward(p, groups_events(before));
        let g = groups.last();
        assert(g == groups[groups.len() - 1]);
        assert forall|k: int| 0 <= k < personal(g.macros).len() implies keeps_macro(
            #[trigger] personal(g.macros)[k],
        ) by {
            assert(keeps_macro(personal(groups[groups.len() - 1].macros)[k]));
        }
        a_group_is_read_back(q, g);
        onward_in_pieces(p, groups_events(before), group_events(g));
        assert(p.groups + written(groups) =~= if personal(g.macros).len() == 0 {
            q.groups
        } else {
            q.groups.push(
                GroupState { name: g.name, origin: Origin::Personal, macros: personal(g.macros) },
            )
        });
    }
}

// ---- laws ---------------------------------------------------------------

/// Events that tell of some groups, whatever stands between the tags, are read
/// as the personal macros of those groups.
pub proof fn what_is_told_is_understood(events: Seq<EventState>, groups: Seq<GroupState>)
    requires
        solid(events) == document_events(groups),
        keeps_groups(groups),
    ensures
        progress(events).finish() == written(groups),
{
    tags_differ();
    only_what_is_solid_counts(events);
    let all = document_events(groups);
    onward_from_the_start(all);
    let start = Progress::start();
    let open = EventState::Open("macros"@, Seq::<AttrState>::empty());
    let close = EventState::Close("macros"@);
    onward_in_pieces(start, seq![open] + groups_events(groups), seq![close]);
    onward_in_pieces(start, seq![open], groups_events(groups));
    onward_one(start, open);
    groups_are_read_back(start, groups);
    assert(start.groups + written(groups) =~= written(groups));
    let q = onward(start, groups_events(groups));
    onward_one(q, close);
}

/// Personal macros come back from the file they were written to. What the XML
/// reader has to do for that: read the document to its end as the tags and the
/// bodies it was written with, whatever it makes of what stands between them.
pub proof fn what_is_written_is_read_back(groups: Seq<GroupState>, n: nat)
    requires
        keeps_groups(groups),
        ends_at(xml_document(groups), n),
        xml_event(xml_document(groups), n) is End,
        solid(events_before(xml_document(groups), n)) == document_events(groups),
    ensures
        meaning(xml_document(groups)) == Ok::<Seq<GroupState>, (u64, Seq<char>)>(written(groups)),
{
    let xml = xml_document(groups);
    super::macros::one_end(xml, choose|n: nat| ends_at(xml, n), n);
    what_is_told_is_understood(events_before(xml, n), groups);
}

} // verus!
