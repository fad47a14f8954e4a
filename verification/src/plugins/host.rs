//! Which plugins are loaded, which are called, and what is made of what they
//! answer.
//!
//! Each module runs with only the three host functions in [`super::api`]. A
//! plugin that traps or misbehaves is disabled and reported rather than taking
//! the terminal down with it. Running a module is the caller's: it is told
//! which plugin to call next, and says what came of it.

use vstd::prelude::*;
use vstd::slice::{slice_subrange, slice_to_vec};

use super::api::{unpack, unpacked, Hook, Manifest, PluginInfo};
use crate::text::{
    copied_strings, decimal, digits, lossy, opt_text, same, texts, texts_push, utf8_lossy,
};

verus! {

broadcast use texts_push;

/// Upper bound on a buffer a plugin hands over. A plugin returning a
/// nonsensical length must not make the host allocate without limit.
pub const MAX_BUFFER: u32 = 8 * 1024 * 1024;

// ---- buffers ------------------------------------------------------------

/// What is wrong with a buffer.
#[derive(Clone, Copy, Debug, PartialEq, Eq, Structural)]
pub enum Rejected {
    TooBig(u32),
    OutOfBounds,
}

impl Rejected {
    pub fn message(&self) -> (text: String)
        ensures
            text@ == match *self {
                Rejected::TooBig(len) => "returned buffer of "@ + digits(len as nat)
                    + " bytes exceeds the limit"@,
                Rejected::OutOfBounds => "returned buffer is out of bounds"@,
            },
    {
        match self {
            Rejected::TooBig(len) => {
                let mut text = "returned buffer of ".to_owned();
                text.append(decimal(*len as u64).as_str());
                text.append(" bytes exceeds the limit");
                text
            },
            Rejected::OutOfBounds => "returned buffer is out of bounds".to_owned(),
        }
    }
}

/// What a transform's return value stands for in a plugin's memory.
pub open spec fn replacement(value: i64, memory: Seq<u8>) -> Result<Option<Seq<u8>>, Rejected> {
    match unpacked(value) {
        None => Ok(None),
        Some((ptr, len)) => if len > MAX_BUFFER {
            Err(Rejected::TooBig(len))
        } else if ptr + len > memory.len() {
            Err(Rejected::OutOfBounds)
        } else {
            Ok(Some(memory.subrange(ptr as int, ptr + len)))
        },
    }
}

/// The bytes `start..start + len` of a plugin's memory, if they are in it.
fn window(memory: &[u8], start: u32, len: u32) -> (bytes: Option<Vec<u8>>)
    ensures
        match bytes {
            Some(bytes) => start + len <= memory@.len() && bytes@ == memory@.subrange(
                start as int,
                start + len,
            ),
            None => start + len > memory@.len(),
        },
{
    let size = memory.len();
    let end = match (start as usize).checked_add(len as usize) {
        Some(end) => end,
        None => {
            return None;
        },
    };
    if end > size {
        return None;
    }
    Some(slice_to_vec(slice_subrange(memory, start as usize, end)))
}

/// Reads back what a transform returned, if it returned anything.
pub fn read_replacement(value: i64, memory: &[u8]) -> (bytes: Result<Option<Vec<u8>>, Rejected>)
    ensures
        match bytes {
            Ok(Some(bytes)) => replacement(value, memory@) == Ok::<Option<Seq<u8>>, Rejected>(
                Some(bytes@),
            ),
            Ok(None) => replacement(value, memory@) == Ok::<Option<Seq<u8>>, Rejected>(None),
            Err(why) => replacement(value, memory@) == Err::<Option<Seq<u8>>, Rejected>(why),
        },
{
    let (ptr, len) = match unpack(value) {
        Some(buffer) => buffer,
        None => {
            return Ok(None);
        },
    };
    if len > MAX_BUFFER {
        return Err(Rejected::TooBig(len));
    }
    match window(memory, ptr, len) {
        Some(bytes) => Ok(Some(bytes)),
        None => Err(Rejected::OutOfBounds),
    }
}

/// The bytes a plugin hands to a host function, if there are any such. A
/// negative pointer counts as zero.
pub open spec fn handed(ptr: i32, len: i32, memory: Seq<u8>) -> Option<Seq<u8>> {
    let start = if ptr < 0 {
        0
    } else {
        ptr as int
    };
    if len < 0 || len > MAX_BUFFER || start + len > memory.len() {
        None
    } else {
        Some(memory.subrange(start, start + len))
    }
}

/// Reads the text a plugin hands to a host function. One that is out of bounds
/// is dropped.
pub fn read_request(ptr: i32, len: i32, memory: &[u8]) -> (text: Option<String>)
    ensures
        match text {
            Some(text) => handed(ptr, len, memory@) matches Some(bytes) && text@ == utf8_lossy(
                bytes,
            ),
            None => handed(ptr, len, memory@) is None,
        },
{
    if len < 0 || len as u32 > MAX_BUFFER {
        return None;
    }
    let start: u32 = if ptr < 0 {
        0
    } else {
        ptr as u32
    };
    match window(memory, start, len as u32) {
        Some(bytes) => Some(lossy(bytes.as_slice())),
        None => None,
    }
}

/// The names that a plugin registered among what it asked for, in its order.
pub open spec fn registered(hooks: Seq<Hook>) -> Seq<Seq<char>>
    decreases hooks.len(),
{
    if hooks.len() == 0 {
        Seq::empty()
    } else {
        let before = registered(hooks.drop_last());
        match hooks.last() {
            Hook::RegisterCommand(name) => before.push(name@),
            _ => before,
        }
    }
}

/// The commands a plugin offers, from what it asked for when it was started.
pub fn commands_of(hooks: &Vec<Hook>) -> (names: Vec<String>)
    ensures
        texts(names@) == registered(hooks@),
{
    let mut names: Vec<String> = Vec::new();
    let mut i: usize = 0;
    assert(texts(names@) =~= registered(hooks@.take(0)));
    while i < hooks.len()
        invariant
            i <= hooks@.len(),
            texts(names@) == registered(hooks@.take(i as int)),
        decreases hooks.len() - i,
    {
        assert(hooks@.take(i + 1).drop_last() =~= hooks@.take(i as int));
        if let Hook::RegisterCommand(name) = &hooks[i] {
            names.push(name.clone());
        }
        i += 1;
    }
    assert(hooks@.take(i as int) =~= hooks@);
    names
}

// ---- the plugins --------------------------------------------------------

#[verifier::ext_equal]
pub struct InfoState {
    pub name: Seq<char>,
    pub version: Seq<char>,
    pub description: Seq<char>,
    pub commands: Seq<Seq<char>>,
    pub error: Option<Seq<char>>,
}

impl View for PluginInfo {
    type V = InfoState;

    open spec fn view(&self) -> InfoState {
        InfoState {
            name: self.name@,
            version: self.version@,
            description: self.description@,
            commands: texts(self.commands@),
            error: opt_text(self.error),
        }
    }
}

/// What a plugin lets itself be called for.
#[derive(Clone, Copy, Debug, PartialEq, Eq, Structural)]
pub struct Exports {
    pub on_output: bool,
    pub on_input: bool,
    pub command: bool,
}

/// The two streams a plugin can rewrite.
#[derive(Clone, Copy, Debug, PartialEq, Eq, Structural)]
pub enum Stream {
    Output,
    Input,
}

/// A plugin, and whether it is still called.
#[derive(Clone, Copy, Debug, PartialEq, Eq, Structural)]
pub struct Plugin {
    pub exports: Exports,
    /// Set once the plugin traps; it is then skipped.
    pub disabled: bool,
}

impl Plugin {
    /// Whether a plugin is called with what a stream carries.
    pub open spec fn rewrites(self, stream: Stream) -> bool {
        !self.disabled && match stream {
            Stream::Output => self.exports.on_output,
            Stream::Input => self.exports.on_input,
        }
    }
}

/// Every plugin there is, with what the UI shows about it.
pub struct PluginHost {
    pub infos: Vec<PluginInfo>,
    pub plugins: Vec<Plugin>,
}

#[verifier::ext_equal]
pub struct HostState {
    pub infos: Seq<InfoState>,
    pub plugins: Seq<Plugin>,
}

impl View for PluginHost {
    type V = HostState;

    open spec fn view(&self) -> HostState {
        HostState { infos: infos_of(self.infos@), plugins: self.plugins@ }
    }
}

pub open spec fn infos_of(infos: Seq<PluginInfo>) -> Seq<InfoState> {
    infos.map_values(|i: PluginInfo| i@)
}

impl HostState {
    /// A plugin is reported exactly if it is disabled.
    pub open spec fn wf(self) -> bool {
        &&& self.infos.len() == self.plugins.len()
        &&& forall|i: int|
            0 <= i < self.plugins.len() ==> (#[trigger] self.plugins[i]).disabled == (
            self.infos[i].error is Some)
    }

    /// A host and a plugin that it has loaded besides.
    pub open spec fn with(self, info: InfoState, plugin: Plugin) -> HostState {
        HostState { infos: self.infos.push(info), plugins: self.plugins.push(plugin) }
    }

    /// A plugin reported and not called any more.
    pub open spec fn without(self, i: int, why: Seq<char>) -> HostState {
        HostState {
            infos: self.infos.update(i, InfoState { error: Some(why), ..self.infos[i] }),
            plugins: self.plugins.update(i, Plugin { disabled: true, ..self.plugins[i] }),
        }
    }

    /// The first plugin of `from..` that rewrites a stream.
    pub open spec fn next_rewriting(self, stream: Stream, from: int) -> Option<int>
        decreases self.plugins.len() - from,
    {
        if from < 0 || from >= self.plugins.len() {
            None
        } else if self.plugins[from].rewrites(stream) {
            Some(from)
        } else {
            self.next_rewriting(stream, from + 1)
        }
    }

    /// Whether a plugin is called to run a command.
    pub open spec fn runs(self, i: int, name: Seq<char>) -> bool {
        !self.plugins[i].disabled && self.plugins[i].exports.command
            && self.infos[i].commands.contains(name)
    }

    /// The first plugin of `from..` that runs a command.
    pub open spec fn next_running(self, name: Seq<char>, from: int) -> Option<int>
        decreases self.plugins.len() - from,
    {
        if from < 0 || from >= self.plugins.len() {
            None
        } else if self.runs(from, name) {
            Some(from)
        } else {
            self.next_running(name, from + 1)
        }
    }
}

/// What came of calling a plugin.
pub enum Answer {
    Replacement(Vec<u8>),
    PassThrough,
    Trapped(String),
}

/// What a stream carries, on its way past the plugins.
pub struct Pass {
    pub stream: Stream,
    pub current: Vec<u8>,
    /// The plugin to go on from.
    pub from: usize,
}

#[verifier::ext_equal]
pub struct PassState {
    pub stream: Stream,
    pub current: Seq<u8>,
    pub from: int,
}

impl View for Pass {
    type V = PassState;

    open spec fn view(&self) -> PassState {
        PassState { stream: self.stream, current: self.current@, from: self.from as int }
    }
}

impl PassState {
    /// Bytes on their way past the plugins behind plugin `i`, given what that
    /// one answered.
    pub open spec fn after(self, i: int, answer: Answer) -> PassState {
        PassState {
            stream: self.stream,
            current: match answer {
                Answer::Replacement(bytes) => bytes@,
                _ => self.current,
            },
            from: i + 1,
        }
    }
}

impl HostState {
    /// A host after plugin `i` answered.
    pub open spec fn after(self, i: int, answer: Answer) -> HostState {
        match answer {
            Answer::Trapped(why) => self.without(i, why@),
            _ => self,
        }
    }
}

impl PluginHost {
    /// A host with no plugins loaded, used when plugins are switched off in
    /// settings.
    pub fn disabled() -> (host: Self)
        ensures
            host@ == (HostState { infos: Seq::empty(), plugins: Seq::empty() }),
            host@.wf(),
    {
        let host = PluginHost { infos: Vec::new(), plugins: Vec::new() };
        assert(host@ =~= HostState { infos: Seq::empty(), plugins: Seq::empty() });
        host
    }

    pub fn is_enabled() -> (yes: bool)
        ensures
            yes,
    {
        true
    }

    /// Takes up a plugin that was loaded from a file whose name, without its
    /// ending, is `stem`: that is what it is called if its manifest does not
    /// say. `hooks` is what it asked for when it was started.
    pub fn add(&mut self, manifest: &Manifest, stem: &str, hooks: &Vec<Hook>, exports: Exports)
        requires
            old(self)@.wf(),
        ensures
            final(self)@ == old(self)@.with(
                InfoState {
                    name: if manifest.name@.len() == 0 {
                        stem@
                    } else {
                        manifest.name@
                    },
                    version: manifest.version@,
                    description: manifest.description@,
                    commands: registered(hooks@),
                    error: None,
                },
                Plugin { exports, disabled: false },
            ),
            final(self)@.wf(),
    {
        let ghost before = self@;
        let info = PluginInfo {
            name: if manifest.name.as_str().unicode_len() == 0 {
                stem.to_owned()
            } else {
                manifest.name.clone()
            },
            version: manifest.version.clone(),
            description: manifest.description.clone(),
            commands: commands_of(hooks),
            error: None,
        };
        let ghost shown = info@;
        self.infos.push(info);
        self.plugins.push(Plugin { exports, disabled: false });
        assert(self@ =~= before.with(shown, Plugin { exports, disabled: false }));
    }

    /// Reports a plugin that could not be loaded. It is never called.
    pub fn add_failed(&mut self, stem: &str, why: &str)
        requires
            old(self)@.wf(),
        ensures
            final(self)@ == old(self)@.with(
                InfoState {
                    name: stem@,
                    version: Seq::empty(),
                    description: Seq::empty(),
                    commands: Seq::empty(),
                    error: Some(why@),
                },
                Plugin {
                    exports: Exports { on_output: false, on_input: false, command: false },
                    disabled: true,
                },
            ),
            final(self)@.wf(),
    {
        let ghost before = self@;
        let info = PluginInfo {
            name: stem.to_owned(),
            version: String::new(),
            description: String::new(),
            commands: Vec::new(),
            error: Some(why.to_owned()),
        };
        assert(texts(info.commands@) =~= Seq::<Seq<char>>::empty());
        let ghost shown = info@;
        let plugin = Plugin {
            exports: Exports { on_output: false, on_input: false, command: false },
            disabled: true,
        };
        self.infos.push(info);
        self.plugins.push(plugin);
        assert(self@ =~= before.with(shown, plugin));
    }

    /// What the UI shows.
    pub fn loaded(&self) -> (infos: &Vec<PluginInfo>)
        ensures
            infos_of(infos@) == self@.infos,
    {
        &self.infos
    }

    /// Output on its way to the screen.
    pub fn on_output(&self, bytes: &[u8]) -> (pass: Pass)
        ensures
            pass@ == (PassState { stream: Stream::Output, current: bytes@, from: 0 }),
    {
        Pass { stream: Stream::Output, current: slice_to_vec(bytes), from: 0 }
    }

    /// Input on its way to the session.
    pub fn on_input(&self, bytes: &[u8]) -> (pass: Pass)
        ensures
            pass@ == (PassState { stream: Stream::Input, current: bytes@, from: 0 }),
    {
        Pass { stream: Stream::Input, current: slice_to_vec(bytes), from: 0 }
    }

    /// The plugin to call next with what a stream carries, if there is one left.
    pub fn next(&self, pass: &Pass) -> (i: Option<usize>)
        ensures
            match i {
                Some(i) => {
                    &&& self@.next_rewriting(pass.stream, pass@.from) == Some(i as int)
                    &&& i < self.plugins@.len()
                    &&& self@.plugins[i as int].rewrites(pass.stream)
                },
                None => self@.next_rewriting(pass.stream, pass@.from) is None,
            },
    {
        let mut i = pass.from;
        while i < self.plugins.len()
            invariant
                self@.next_rewriting(pass.stream, pass@.from) == self@.next_rewriting(
                    pass.stream,
                    i as int,
                ),
            decreases self.plugins.len() - i,
        {
            let plugin = self.plugins[i];
            let hooked = match pass.stream {
                Stream::Output => plugin.exports.on_output,
                Stream::Input => plugin.exports.on_input,
            };
            if !plugin.disabled && hooked {
                return Some(i);
            }
            i += 1;
        }
        None
    }

    /// Takes in what a plugin answered: what it replaced is what the next one
    /// gets. A plugin that traps is disabled and its result discarded, so one
    /// bad plugin cannot corrupt the stream for the others.
    pub fn answered(&mut self, pass: &mut Pass, i: usize, answer: Answer)
        requires
            old(self)@.wf(),
            i < old(self)@.plugins.len(),
        ensures
            final(self)@ == old(self)@.after(i as int, answer),
            final(pass)@ == old(pass)@.after(i as int, answer),
            final(self)@.wf(),
    {
        let len = self.plugins.len();
        assert(i < len <= usize::MAX);
        match answer {
            Answer::Replacement(bytes) => {
                pass.current = bytes;
            },
            Answer::PassThrough => {},
            Answer::Trapped(why) => {
                self.trapped(i, why);
            },
        }
        pass.from = i + 1;
    }

    /// Reports a plugin that trapped. It is not called again.
    pub fn trapped(&mut self, i: usize, why: String)
        requires
            old(self)@.wf(),
            i < old(self)@.plugins.len(),
        ensures
            final(self)@ == old(self)@.without(i as int, why@),
            final(self)@.wf(),
    {
        let ghost before = self@;
        assert(self.infos@.len() == before.infos.len());
        let was = &self.infos[i];
        let info = PluginInfo {
            name: was.name.clone(),
            version: was.version.clone(),
            description: was.description.clone(),
            commands: copied_strings(&was.commands),
            error: Some(why),
        };
        let ghost shown = info@;
        assert(before.infos[i as int] == self.infos@[i as int]@);
        assert(shown =~= InfoState { error: Some(why@), ..before.infos[i as int] });
        self.infos.set(i, info);
        let plugin = Plugin { exports: self.plugins[i].exports, disabled: true };
        self.plugins.set(i, plugin);
        assert(infos_of(self.infos@) =~= before.infos.update(i as int, shown));
        assert(self@ =~= before.without(i as int, why@));
    }

    /// The plugin to call next to run a command, if there is one left.
    pub fn next_running(&self, name: &str, from: usize) -> (i: Option<usize>)
        requires
            self@.wf(),
        ensures
            match i {
                Some(i) => {
                    &&& self@.next_running(name@, from as int) == Some(i as int)
                    &&& i < self.plugins@.len()
                    &&& self@.runs(i as int, name@)
                },
                None => self@.next_running(name@, from as int) is None,
            },
    {
        let mut i = from;
        while i < self.plugins.len()
            invariant
                self@.wf(),
                self@.next_running(name@, from as int) == self@.next_running(name@, i as int),
            decreases self.plugins.len() - i,
        {
            assert(self@.infos.len() == self.infos@.len());
            assert(self@.infos[i as int] == self.infos@[i as int]@);
            let plugin = self.plugins[i];
            if !plugin.disabled && plugin.exports.command && offers(
                &self.infos[i].commands,
                name,
            ) {
                return Some(i);
            }
            i += 1;
        }
        None
    }
}

fn offers(commands: &Vec<String>, name: &str) -> (yes: bool)
    ensures
        yes == texts(commands@).contains(name@),
{
    let ghost all = texts(commands@);
    let mut i: usize = 0;
    while i < commands.len()
        invariant
            i <= commands@.len(),
            all == texts(commands@),
            forall|k: int| 0 <= k < i ==> #[trigger] all[k] != name@,
        decreases commands.len() - i,
    {
        assert(all[i as int] == commands@[i as int]@);
        if same(commands[i].as_str(), name) {
            return true;
        }
        i += 1;
    }
    false
}

// ---- laws ---------------------------------------------------------------

/// A plugin that traps leaves what the stream carries alone, and every other
/// plugin as it was; it is not called again.
pub proof fn one_bad_plugin_does_not_spoil_the_stream(
    host: HostState,
    pass: PassState,
    i: int,
    why: String,
)
    requires
        host.wf(),
        0 <= i < host.plugins.len(),
    ensures
        pass.after(i, Answer::Trapped(why)).current == pass.current,
        ({
            let after = host.after(i, Answer::Trapped(why));
            &&& !after.plugins[i].rewrites(Stream::Output)
            &&& !after.plugins[i].rewrites(Stream::Input)
            &&& forall|name: Seq<char>| !after.runs(i, name)
            &&& after.infos[i].error == Some(why@)
            &&& forall|k: int|
                0 <= k < host.plugins.len() && k != i ==> #[trigger] after.plugins[k]
                    == host.plugins[k] && after.infos[k] == host.infos[k]
        }),
{
}

proof fn none_rewrites(host: HostState, stream: Stream, from: int)
    requires
        forall|i: int|
            0 <= i < host.plugins.len() ==> !(#[trigger] host.plugins[i]).rewrites(stream),
    ensures
        host.next_rewriting(stream, from) is None,
    decreases host.plugins.len() - from,
{
    if 0 <= from < host.plugins.len() {
        none_rewrites(host, stream, from + 1);
    }
}

/// Where no plugin rewrites a stream, none is called, and the stream passes
/// untouched.
pub proof fn an_unhooked_stream_passes_untouched(host: HostState, pass: PassState)
    requires
        forall|i: int|
            0 <= i < host.plugins.len() ==> !(#[trigger] host.plugins[i]).rewrites(pass.stream),
    ensures
        host.next_rewriting(pass.stream, pass.from) is None,
{
    none_rewrites(host, pass.stream, pass.from);
}

/// No plugin's answer makes the host take in more than its limit.
pub proof fn a_replacement_is_bounded(value: i64, memory: Seq<u8>)
    ensures
        replacement(value, memory) matches Ok(Some(bytes)) ==> bytes.len() <= MAX_BUFFER,
{
}

} // verus!
