//! What is captured of a session, and what is asked about it, written out.

use std::time::Instant;
use vstd::prelude::*;

use super::analyze::{
    captures, commands_on, context_body, context_head, fenced, panes, said_in, session_name,
    transcribed, Capture, Scope, Source,
};
use super::doc_answer::{ask_line, query_lines, switch_line};
use super::doc_session::{
    can_be_asked, lines_on, with_answer, Key, LookupResult, LookupState, StepState,
};
use super::macros::{
    attr_or_empty, attr_set, attr_value, escaped, escaped_char, group_named, lines_of,
    malformed_text, merged, param_of, personal, personal_problems, shared_problems, stamped,
    with_group, xml_body, xml_document, xml_group, xml_groups, xml_lines, xml_macro, xml_macros,
    xml_params, GroupState, MacroState, Origin, ParamState, Source as MacroSource,
};
use super::xml::AttrState;
use crate::objectscript::typed;
use crate::term::state::RowState;
use crate::term::syntax::chars_in;
use crate::term::syntax_laws::{a_namespace_is_a_prompt, is_word, typed_at};
use crate::text::{digits, split, trim, white_space};
use crate::text_laws::a_literal_keeps_the_text;

verus! {

// ---- captures -----------------------------------------------------------

/// A row is a command if something is written behind the prompt that opens it,
/// and a prompt alone is none.
pub proof fn a_prompt_with_something_behind_it(row: RowState, name: Seq<char>, code: Seq<char>)
    requires
        is_word(name),
        name.len() + code.len() < usize::MAX,
        chars_in(row.cells) == typed_at(name, code),
    ensures
        commands_on(row) == exists|i: int| 0 <= i < code.len() && !white_space(#[trigger] code[i]),
{
    a_namespace_is_a_prompt(name, code);
    let n = (name.len() + 1) as int;
    let s = typed_at(name, code);
    assert(s.len() == row.cells.len());
    if exists|i: int| 0 <= i < code.len() && !white_space(#[trigger] code[i]) {
        let i = choose|i: int| 0 <= i < code.len() && !white_space(#[trigger] code[i]);
        assert(s[n + i] == code[i]);
        assert(chars_in(row.cells)[n + i] == row.cells[n + i].ch);
        assert(!white_space(row.cells[n + i].ch));
    }
    if commands_on(row) {
        let i = choose|i: int| n <= i < row.cells.len() && !white_space((#[trigger] row.cells[i]).ch);
        assert(chars_in(row.cells)[i] == row.cells[i].ch);
        assert(s[i] == code[i - n]);
    }
}

/// Ten commands, five, or everything.
pub proof fn how_far_a_scope_reaches()
    ensures
        Scope::LastTen.reach() == Some(10usize),
        Scope::LastFive.reach() == Some(5usize),
        Scope::All.reach() is None,
        Scope::Selection.reach() is None,
{
}

/// What is captured of a session is its selection, if that was asked for, and its
/// transcript otherwise; a session of which nothing is captured is left out.
pub proof fn what_is_captured(sources: Seq<Source<'_>>, source: Source<'_>, scope: Scope)
    ensures
        scope != Scope::Selection ==> said_in(source, scope) == transcribed(source.grid@, scope),
        scope == Scope::Selection ==> said_in(source, scope) == match source.selection {
            Some(text) => crate::text::trim_end(text@),
            None => Seq::empty(),
        },
        captures(sources.push(source), scope) == if trim(said_in(source, scope)).len() > 0 {
            captures(sources, scope).push((source.endpoint@, said_in(source, scope)))
        } else {
            captures(sources, scope)
        },
{
    assert(sources.push(source).drop_last() =~= sources);
}

/// One session is written as it is, in a fence; two are written one after the
/// other, numbered from one, each with its name.
pub proof fn captures_are_fenced(one: Capture, other: Capture)
    ensures
        fenced(one.1) == "\n\n```text\n"@ + one.1 + "\n```\n"@,
        context_body(seq![one]) == "- Session: "@ + one.0 + fenced(one.1),
        panes(seq![one, other]) == "\n## Pane "@ + seq!['1'] + " - "@ + one.0 + fenced(one.1)
            + "\n## Pane "@ + seq!['2'] + " - "@ + other.0 + fenced(other.1),
{
    reveal_with_fuel(panes, 3);
    assert(seq![one, other].drop_last() =~= seq![one]);
    assert(seq![one].drop_last() =~= Seq::empty());
    assert(digits(1) =~= seq!['1']);
    assert(digits(2) =~= seq!['2']);
    assert(panes(seq![one, other]) =~= "\n## Pane "@ + seq!['1'] + " - "@ + one.0 + fenced(one.1)
        + "\n## Pane "@ + seq!['2'] + " - "@ + other.0 + fenced(other.1));
}

/// A capture's file is named after its moment, and from the second attempt on
/// after its number too.
pub proof fn a_capture_is_named_after_its_moment(stamp: Seq<char>, n: nat)
    requires
        n >= 2,
    ensures
        session_name(stamp, 1) == "session-"@ + stamp + ".md"@,
        session_name(stamp, n) == "session-"@ + stamp + seq!['-'] + digits(n) + ".md"@,
{
    assert(session_name(stamp, 1) =~= "session-"@ + stamp + ".md"@);
    assert(session_name(stamp, n) =~= "session-"@ + stamp + seq!['-'] + digits(n) + ".md"@);
}

// ---- asking about globals -----------------------------------------------

/// The namespace is switched to and the global asked for by their own names.
pub proof fn a_global_is_asked_for_by_name(namespace: Seq<char>, global: Seq<char>)
    requires
        !namespace.contains('"'),
        !global.contains('"'),
    ensures
        query_lines(namespace, global).len() == 7,
        query_lines(namespace, global)[1] == "ZN "@ + seq!['"'] + namespace + seq!['"'],
        query_lines(namespace, global)[2] == "I $ZCVT($ZNSPACE,\"U\")=$ZCVT("@ + seq!['"']
            + namespace + seq!['"'] + ",\"U\") S cswG="@ + seq!['"'] + global + seq!['"']
            + ",cswSc=##class(Src2.Classe).ObterInfoClassesGlobalCache(cswG,.cswT)"@,
{
    a_literal_keeps_the_text(namespace, Seq::empty());
    a_literal_keeps_the_text(global, Seq::empty());
    assert(switch_line(namespace) =~= "ZN "@ + seq!['"'] + namespace + seq!['"']);
    assert(ask_line(namespace, global) =~= "I $ZCVT($ZNSPACE,\"U\")=$ZCVT("@ + seq!['"']
        + namespace + seq!['"'] + ",\"U\") S cswG="@ + seq!['"'] + global + seq!['"']
        + ",cswSc=##class(Src2.Classe).ObterInfoClassesGlobalCache(cswG,.cswT)"@);
}

/// A hover that nothing is known for is queued, if there is room; it is answered
/// from what is known, and by nothing where nothing can be asked.
pub proof fn what_a_hover_gets(lookup: LookupState, key: Key, now: Instant)
    ensures
        super::doc_session::remembered(lookup.cache, key) is None && !lookup.unavailable
            && lookup.want is None && !lookup.asking() ==> lookup.request(key, now) == (
            LookupState { want: Some((key, now)), ..lookup },
            LookupResult::Pending,
        ),
        super::doc_session::remembered(lookup.cache, key) is None && lookup.unavailable
            ==> lookup.request(key, now) == (lookup, LookupResult::Unavailable),
        super::doc_session::remembered(lookup.cache, key) == Some(
            None::<Seq<super::doc_lookup::MapState>>,
        ) ==> lookup.request(key, now) == (lookup, LookupResult::NotFound),
{
}

/// A question is put to a session that is at a prompt, and given up after thirty
/// seconds, before it was put or after.
pub proof fn a_question_has_thirty_seconds(
    lookup: LookupState,
    key: Key,
    since: Instant,
    waited: int,
    now: Instant,
)
    requires
        lookup.sidecar is Some,
    ensures
        ({
            let sidecar = lookup.sidecar->0;
            let step = lookup.step(waited, now);
            &&& sidecar.step is Waking && lookup.want == Some((key, since)) && can_be_asked(
                sidecar.grid,
            ) ==> step.query == Some(typed(query_lines(key.0, key.1))) && step.after.want is None
                && step.after.sidecar->0.step == StepState::Asking(key, now)
            &&& sidecar.step is Waking && lookup.want == Some((key, since)) && !can_be_asked(
                sidecar.grid,
            ) && waited <= 30_000_000_000 ==> !step.moved && step.query is None
            &&& sidecar.step is Waking && lookup.want == Some((key, since)) && !can_be_asked(
                sidecar.grid,
            ) && waited > 30_000_000_000 ==> step.after.want is None && step.after.cache
                == with_answer(lookup.cache, key, None)
            &&& sidecar.step == StepState::Asking(key, since)
                && !super::doc_answer::answer_of(lines_on(sidecar.grid)).complete && waited
                <= 30_000_000_000 ==> step.after == lookup
            &&& sidecar.step == StepState::Asking(key, since)
                && !super::doc_answer::answer_of(lines_on(sidecar.grid)).complete && waited
                > 30_000_000_000 ==> step.after.cache == with_answer(lookup.cache, key, None)
            &&& sidecar.step == StepState::Asking(key, since)
                && super::doc_answer::answer_of(lines_on(sidecar.grid)).complete
                ==> step.after.cache == with_answer(
                lookup.cache,
                key,
                Some(
                    super::doc_answer::answer_of(lines_on(sidecar.grid)).maps.map_values(
                        |m: (Seq<char>, super::doc_lookup::MapState)| m.1,
                    ),
                ),
            )
        }),
{
}

/// A session that has had nothing to do for two minutes is let go, and no sooner;
/// one that has ended is let go at once.
pub proof fn an_idle_session_has_two_minutes(lookup: LookupState, waited: int, idle: int, now: Instant)
    requires
        lookup.sidecar matches Some(sidecar) && sidecar.step is Waking,
        lookup.want is None,
    ensures
        idle > 120_000_000_000 ==> lookup.pump(waited, idle, false, now).after.sidecar is None,
        idle <= 120_000_000_000 ==> lookup.pump(waited, idle, false, now).after == lookup,
        lookup.pump(waited, idle, true, now).after.sidecar is None,
{
}

// ---- macros -------------------------------------------------------------

/// A flag is set by `true`, `1` or `yes` and by nothing else, and an attribute
/// that is not there sets none.
pub proof fn what_sets_a_flag(attrs: Seq<AttrState>, key: Seq<char>)
    ensures
        attr_value(attrs, key) is None ==> !attr_set(attrs, key),
        attr_value(attrs, key) == Some("true"@) ==> attr_set(attrs, key),
        attr_value(attrs, key) == Some("1"@) ==> attr_set(attrs, key),
        attr_value(attrs, key) == Some("yes"@) ==> attr_set(attrs, key),
        attr_value(attrs, key) == Some("false"@) ==> !attr_set(attrs, key),
        attr_set(attrs, key) ==> attr_value(attrs, key) == Some("true"@) || attr_value(attrs, key)
            == Some("1"@) || attr_value(attrs, key) == Some("yes"@),
{
    reveal_strlit("true");
    reveal_strlit("1");
    reveal_strlit("yes");
    reveal_strlit("false");
    assert("false"@.len() == 5 && "true"@.len() == 4 && "1"@.len() == 1 && "yes"@.len() == 3);
}

/// The value of an attribute is the first of its name, with its entities
/// resolved, or as it stands where they cannot be.
pub proof fn the_first_attribute_of_a_name(attrs: Seq<AttrState>, key: Seq<char>, i: int)
    requires
        0 <= i < attrs.len(),
        attrs[i].key == key,
        forall|k: int| 0 <= k < i ==> (#[trigger] attrs[k]).key != key,
    ensures
        attr_value(attrs, key) == Some(
            match attrs[i].value {
                Some(value) => value,
                None => attrs[i].raw,
            },
        ),
    decreases i,
{
    if i > 0 {
        assert(attrs[0].key != key);
        let rest = attrs.skip(1);
        assert(rest[i - 1] == attrs[i]);
        assert forall|k: int| 0 <= k < i - 1 implies (#[trigger] rest[k]).key != key by {
            assert(rest[k] == attrs[k + 1]);
        }
        the_first_attribute_of_a_name(rest, key, i - 1);
    }
}

/// A parameter without a prompt is asked for by its name.
pub proof fn a_parameter_is_asked_for_by_name(attrs: Seq<AttrState>)
    ensures
        param_of(attrs).name == attr_or_empty(attrs, "name"@),
        attr_value(attrs, "prompt"@) is None ==> param_of(attrs).prompt == param_of(attrs).name,
        attr_value(attrs, "prompt"@) matches Some(prompt) ==> param_of(attrs).prompt == prompt,
        param_of(attrs).default == attr_or_empty(attrs, "default"@),
{
}

/// What means something in XML is written as a reference, and everything else as
/// it is.
pub proof fn markup_is_written_as_references(c: char, s: Seq<char>)
    ensures
        escaped_char('&') == seq!['&', 'a', 'm', 'p', ';'],
        escaped_char('<') == seq!['&', 'l', 't', ';'],
        escaped_char('>') == seq!['&', 'g', 't', ';'],
        escaped_char('"') == seq!['&', 'q', 'u', 'o', 't', ';'],
        c != '&' && c != '<' && c != '>' && c != '"' ==> escaped_char(c) == seq![c],
        escaped(s.push(c)) == escaped(s) + escaped_char(c),
        escaped(Seq::<char>::empty()) == Seq::<char>::empty(),
{
    reveal_strlit("&amp;");
    reveal_strlit("&lt;");
    reveal_strlit("&gt;");
    reveal_strlit("&quot;");
    assert("&amp;"@ =~= seq!['&', 'a', 'm', 'p', ';']);
    assert("&lt;"@ =~= seq!['&', 'l', 't', ';']);
    assert("&gt;"@ =~= seq!['&', 'g', 't', ';']);
    assert("&quot;"@ =~= seq!['&', 'q', 'u', 'o', 't', ';']);
    assert(s.push(c).drop_last() =~= s);
}

/// A group of a name that is there already adds its macros behind those of that
/// group; one of another name comes behind the others.
pub proof fn groups_of_one_name_are_one(groups: Seq<GroupState>, group: GroupState, i: int)
    requires
        forall|k: int| 0 <= k < groups.len() ==> ((#[trigger] groups[k]).name == group.name ==> k
            == i),
        0 <= i < groups.len() ==> groups[i].name == group.name,
    ensures
        0 <= i < groups.len() ==> {
            let after = with_group(groups, group);
            &&& after.len() == groups.len()
            &&& after[i].macros == groups[i].macros + group.macros
            &&& after[i].name == groups[i].name && after[i].origin == groups[i].origin
            &&& forall|k: int| 0 <= k < groups.len() && k != i ==> #[trigger] after[k] == groups[k]
        },
        !(0 <= i < groups.len()) ==> with_group(groups, group) == groups.push(group),
{
    the_group_is_found(groups, group.name, 0, i);
}

proof fn the_group_is_found(groups: Seq<GroupState>, name: Seq<char>, from: int, i: int)
    requires
        0 <= from,
        forall|k: int| 0 <= k < groups.len() ==> ((#[trigger] groups[k]).name == name ==> k == i),
        0 <= i < groups.len() ==> groups[i].name == name,
    ensures
        from <= i < groups.len() ==> group_named(groups, name, from) == Some(i),
        !(from <= i < groups.len()) ==> group_named(groups, name, from) is None,
    decreases groups.len() - from,
{
    if from < groups.len() {
        the_group_is_found(groups, name, from + 1, i);
    }
}

/// Groups are folded in one after the other.
pub proof fn groups_are_folded_in_turn(
    into: Seq<GroupState>,
    extra: Seq<GroupState>,
    group: GroupState,
)
    ensures
        merged(into, extra.push(group)) == with_group(merged(into, extra), group),
        merged(into, Seq::empty()) == into,
{
    assert(extra.push(group).drop_last() =~= extra);
}

/// What is loaded is marked with where it came from, every group and every macro
/// in it.
pub proof fn everything_is_stamped(groups: Seq<GroupState>, origin: Origin, i: int, k: int)
    requires
        0 <= i < groups.len(),
        0 <= k < groups[i].macros.len(),
    ensures
        stamped(groups, origin).len() == groups.len(),
        stamped(groups, origin)[i].origin == origin,
        stamped(groups, origin)[i].name == groups[i].name,
        stamped(groups, origin)[i].macros.len() == groups[i].macros.len(),
        stamped(groups, origin)[i].macros[k] == (MacroState { origin, ..groups[i].macros[k] }),
{
}

/// The lines of a body are those with something on them, without the white space
/// around them, in order.
pub proof fn body_lines_are_kept_in_order(text: Seq<char>, pieces: Seq<Seq<char>>, line: Seq<char>)
    ensures
        lines_of(text) == super::macros::kept_lines(split(text, '\n')),
        super::macros::kept_lines(pieces.push(line)) == if trim(line).len() > 0 {
            super::macros::kept_lines(pieces).push(trim(line))
        } else {
            super::macros::kept_lines(pieces)
        },
{
    assert(pieces.push(line).drop_last() =~= pieces);
}

/// The head of a capture says when it was made and how far it reaches.
pub proof fn a_capture_says_when_and_how_far(stamp: Seq<char>)
    ensures
        ({
            let opening
                = "# Context: the user's InterSystems IRIS terminal\n\nBelow is output captured from the terminal the user is working in - ObjectScript on InterSystems IRIS/Caché. It is background for whatever they are about to ask; there is no question in it, so wait for theirs rather than volunteering an analysis of it.\n\n- Captured: "@;
            &&& context_head(Scope::All, stamp) == opening + stamp + "\n- Scope: "@ + "All output"@
                + "\n"@
            &&& context_head(Scope::LastTen, stamp) == opening + stamp + "\n- Scope: "@
                + "Last 10 commands"@ + "\n"@
            &&& context_head(Scope::LastFive, stamp) == opening + stamp + "\n- Scope: "@
                + "Last 5 commands"@ + "\n"@
            &&& context_head(Scope::Selection, stamp) == opening + stamp + "\n- Scope: "@
                + "Selection"@ + "\n"@
        }),
{
}

/// A macro file that did not load is named with where it broke, or where it was
/// looked for.
pub proof fn what_is_said_of_a_file(path: String, why: String)
    ensures
        shared_problems(MacroSource::NotConfigured) == Seq::<Seq<char>>::empty(),
        shared_problems(MacroSource::Missing(path)) == seq![
            "Organization macros not found at "@ + path@ + " — using personal macros only."@,
        ],
        shared_problems(MacroSource::Unreadable(why)) == seq![
            "Organization macros could not be read: "@ + why@,
        ],
        personal_problems(MacroSource::Unreadable(why)) == seq![
            "Personal macros could not be read: "@ + why@,
        ],
        personal_problems(MacroSource::NotConfigured) == Seq::<Seq<char>>::empty(),
        malformed_text(7, why@) == "malformed macro XML at byte "@ + seq!['7'] + ": "@ + why@,
{
    assert(digits(7) =~= seq!['7']);
}

/// A macro is written with its name, and with what else it has: its description,
/// its shortcut, whether it asks before it is sent and whether it is hidden.
pub proof fn a_macro_is_written_with_what_it_has(m: MacroState)
    ensures
        ({
            let name = "    <macro name=\""@ + escaped(m.name) + "\""@;
            let description = if m.description.len() > 0 {
                " description=\""@ + escaped(m.description) + "\""@
            } else {
                Seq::empty()
            };
            let key = match m.key {
                Some(key) => " key=\""@ + escaped(key) + "\""@,
                None => Seq::empty(),
            };
            let confirm = if m.confirm { " confirm=\"true\""@ } else { Seq::empty() };
            let hide = if m.hide_command { " hide_command=\"true\""@ } else { Seq::empty() };
            xml_macro(m) == name + description + key + confirm + hide + ">\n"@ + xml_params(m.params)
                + xml_body(m.body)
        }),
{
    let name = "    <macro name=\""@ + escaped(m.name) + "\""@;
    let description = if m.description.len() > 0 {
        " description=\""@ + escaped(m.description) + "\""@
    } else {
        Seq::empty()
    };
    let key = match m.key {
        Some(key) => " key=\""@ + escaped(key) + "\""@,
        None => Seq::empty(),
    };
    let confirm = if m.confirm { " confirm=\"true\""@ } else { Seq::empty() };
    let hide = if m.hide_command { " hide_command=\"true\""@ } else { Seq::empty() };
    assert(xml_macro(m) =~= name + description + key + confirm + hide + ">\n"@ + xml_params(m.params)
        + xml_body(m.body));
}

/// Parameters follow in their order, each with its name, a prompt that is not the
/// name, and a default that is not empty; and then the body, line by line.
pub proof fn parameters_and_lines_follow(
    params: Seq<ParamState>,
    p: ParamState,
    body: Seq<Seq<char>>,
    line: Seq<char>,
)
    ensures
        xml_params(params.push(p)) == xml_params(params) + "      <param name=\""@ + escaped(p.name)
            + "\""@ + (if p.prompt.len() > 0 && p.prompt != p.name {
            " prompt=\""@ + escaped(p.prompt) + "\""@
        } else {
            Seq::empty()
        }) + (if p.default.len() > 0 {
            " default=\""@ + escaped(p.default) + "\""@
        } else {
            Seq::empty()
        }) + "/>\n"@,
        xml_params(Seq::<ParamState>::empty()) == Seq::<char>::empty(),
        xml_body(seq![line]) == "      <body>"@ + escaped(line) + "</body>\n    </macro>\n"@,
        body.len() != 1 ==> xml_body(body) == "      <body>"@ + "\n"@ + xml_lines(body)
            + "      "@ + "</body>\n    </macro>\n"@,
        xml_lines(body.push(line)) == xml_lines(body) + "        "@ + escaped(line) + "\n"@,
{
    assert(params.push(p).drop_last() =~= params);
    assert(body.push(line).drop_last() =~= body);
    assert(xml_params(params.push(p)) =~= xml_params(params) + "      <param name=\""@ + escaped(
        p.name,
    ) + "\""@ + (if p.prompt.len() > 0 && p.prompt != p.name {
        " prompt=\""@ + escaped(p.prompt) + "\""@
    } else {
        Seq::empty()
    }) + (if p.default.len() > 0 {
        " default=\""@ + escaped(p.default) + "\""@
    } else {
        Seq::empty()
    }) + "/>\n"@);
    if body.len() != 1 {
        assert(xml_body(body) =~= "      <body>"@ + "\n"@ + xml_lines(body) + "      "@
            + "</body>\n    </macro>\n"@);
    }
}

/// Groups follow in their order, each with its name and its personal macros.
pub proof fn groups_follow_in_their_order(
    groups: Seq<GroupState>,
    g: GroupState,
    macros: Seq<MacroState>,
    m: MacroState,
)
    ensures
        xml_document(groups.push(g)) == "<?xml version=\"1.0\" encoding=\"utf-8\"?>\n<macros>\n"@
            + xml_groups(groups) + xml_group(g) + "</macros>\n"@,
        personal(g.macros).len() > 0 ==> xml_group(g) == "  <group name=\""@ + escaped(g.name)
            + "\""@ + ">\n"@ + xml_macros(personal(g.macros)) + "  </group>\n"@,
        personal(g.macros).len() == 0 ==> xml_group(g) == Seq::<char>::empty(),
        xml_macros(macros.push(m)) == xml_macros(macros) + xml_macro(m),
        m.origin == Origin::Personal ==> personal(macros.push(m)) == personal(macros).push(m),
        m.origin != Origin::Personal ==> personal(macros.push(m)) == personal(macros),
{
    assert(groups.push(g).drop_last() =~= groups);
    assert(macros.push(m).drop_last() =~= macros);
    assert(xml_document(groups.push(g)) =~= "<?xml version=\"1.0\" encoding=\"utf-8\"?>\n<macros>\n"@
        + xml_groups(groups) + xml_group(g) + "</macros>\n"@);
}

/// The lines of a question, the two that name what is asked about aside.
pub proof fn the_other_lines_of_a_question(namespace: Seq<char>, global: Seq<char>)
    ensures
        query_lines(namespace, global)[0] == "K cswT,cc,mm,kk,pp"@,
        query_lines(namespace, global)[3]
            == "I '$D(cswT),$D(cswG) S cswNs2=\"\",cswSc=##class(Src2.Config).ObterNamespaceDesenv(,.cswNs2) ZN:cswNs2'=\"\" cswNs2 S cswSc=##class(Src2.Classe).ObterInfoClassesGlobalCache(cswG,.cswT)"@,
        query_lines(namespace, global)[4]
            == "S cc=\"\" F  S cc=$O(cswT(cc)) Q:cc=\"\"  S mm=\"\" F  S mm=$O(cswT(cc,\"maps\",\"data\",mm)) Q:mm=\"\"  S kk=\"\",nn=0,ff=\"\" F  S kk=$O(cswT(cc,\"maps\",\"data\",mm,\"chaves\",kk)) Q:kk=\"\"  S nn=nn+1 S:$D(cswT(cc,\"maps\",\"data\",mm,\"chaves\",kk,\"fixa\")) ff=ff_kk_\":\"_$P(cswT(cc,\"maps\",\"data\",mm,\"chaves\",kk,\"fixa\"),\"^\",1)_\",\" W:$O(cswT(cc,\"maps\",\"data\",mm,\"chaves\",kk))=\"\" \""@
            + "##CSWMAP##"@
            + "\"_cc_\"|\"_mm_\"|\"_nn_\"|\"_ff_\"##\",!"@,
        query_lines(namespace, global)[5]
            == "S cc=\"\" F  S cc=$O(cswT(cc)) Q:cc=\"\"  S mm=\"\" F  S mm=$O(cswT(cc,\"maps\",\"data\",mm)) Q:mm=\"\"  S pp=\"\" F  S pp=$O(cswT(cc,\"maps\",\"data\",mm,\"pieces\",pp)) Q:pp=\"\"  S dp=cswT(cc,\"maps\",\"data\",mm,\"pieces\",pp),pr=$P(dp,\"^\",1),sq=$P(dp,\"^\",3),d2=$G(cswT(cc,\"maps\",\"data\",mm,\"pieces\",pp,2)),dd=$G(cswT(cc,\"props\",pr)),cswSc=$$EditarDadosPropriedade^%CSWDOCGLOBALRG(.dd) W:pr'=\"\" \""@
            + "##CSWTIP##"@
            + "\"_cc_\"|\"_mm_\"|\"_sq_\"|\"_d2_\"|\"_$P(dd,\"^\",1)_\"|\"_$P(dd,\"^\",5)_\"|\"_$P(dd,\"^\",3)_\"|\"_$P(dd,\"^\",6)_\"|\"_$P(dd,\"^\",7)_\"##\",!"@,
        query_lines(namespace, global)[6] == "W \""@ + "##CSWTIPEND##"@ + "\",!"@,
{
}

} // verus!
