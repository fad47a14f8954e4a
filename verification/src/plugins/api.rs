//! The contract between the terminal and a plugin.
//!
//! ## Guest exports
//!
//! A plugin module may export any of these; all are optional.
//!
//! | Export | Signature | Meaning |
//! |---|---|---|
//! | `nit_on_output` | `(ptr: i32, len: i32) -> i64` | Observe/rewrite output. Returns packed ptr+len of the replacement, or 0 to pass through. |
//! | `nit_on_input`  | `(ptr: i32, len: i32) -> i64` | Same, for user input heading to IRIS. |
//! | `nit_command`   | `(ptr: i32, len: i32)`        | Run a registered command by name. |
//! | `nit_init`      | `()`                          | Called once after load. |
//! | `memory`        | -                             | Required so the host can pass buffers. |
//! | `nit_alloc`     | `(len: i32) -> i32`           | Required if the plugin wants the host to pass it data. |
//!
//! ## Host imports (module `nit`)
//!
//! | Import | Signature | Meaning |
//! |---|---|---|
//! | `send_text`  | `(ptr: i32, len: i32)` | Queue text to be typed into the session. |
//! | `set_status` | `(ptr: i32, len: i32)` | Show a message in the status bar. |
//! | `register_command` | `(ptr: i32, len: i32)` | Offer a command in the palette. |
//!
//! `send_text` is the sharpest edge here: a plugin can type into a live session
//! against a shared database. Requests are queued and applied by the app rather
//! than executed inside the sandbox call, so the UI stays in control of when -
//! and whether - they run.

use vstd::prelude::*;

verus! {

/// Something a plugin asked the host to do. Returned to the app, which decides
/// whether to honour it.
#[derive(Clone, Debug, PartialEq, Eq)]
pub enum Hook {
    /// Type this text into the active session.
    SendText(String),
    /// Show this in the status bar.
    SetStatus(String),
    /// Offer this command in the palette.
    RegisterCommand(String),
}

/// A plugin's manifest, read from `<name>.toml` beside the `.wasm`.
#[derive(Clone, Debug)]
pub struct Manifest {
    pub name: String,
    pub version: String,
    pub description: String,
    /// Author-declared hooks. Informational: the host calls whatever the module
    /// actually exports.
    pub hooks: Vec<String>,
}

impl Default for Manifest {
    fn default() -> (manifest: Self)
        ensures
            manifest.name@ == Seq::<char>::empty(),
            manifest.version@ == Seq::<char>::empty(),
            manifest.description@ == Seq::<char>::empty(),
            manifest.hooks@ == Seq::<String>::empty(),
    {
        Manifest {
            name: String::new(),
            version: String::new(),
            description: String::new(),
            hooks: Vec::new(),
        }
    }
}

/// What the UI shows about a loaded plugin.
#[derive(Clone, Debug)]
pub struct PluginInfo {
    pub name: String,
    pub version: String,
    pub description: String,
    pub commands: Vec<String>,
    /// Set when the module failed to load or trapped; it is then disabled.
    pub error: Option<String>,
}

impl Default for PluginInfo {
    fn default() -> (info: Self)
        ensures
            info.name@ == Seq::<char>::empty(),
            info.version@ == Seq::<char>::empty(),
            info.description@ == Seq::<char>::empty(),
            info.commands@ == Seq::<String>::empty(),
            info.error is None,
    {
        PluginInfo {
            name: String::new(),
            version: String::new(),
            description: String::new(),
            commands: Vec::new(),
            error: None,
        }
    }
}

/// The number whose high half is a pointer and whose low half is a length, as
/// two's complement has it.
pub open spec fn packed(ptr: u32, len: u32) -> int {
    let whole = ptr * 0x1_0000_0000 + len;
    if whole < 0x8000_0000_0000_0000 {
        whole
    } else {
        whole - 0x1_0000_0000_0000_0000
    }
}

/// The pointer and the length in a number. Zero holds neither.
pub open spec fn unpacked(value: i64) -> Option<(u32, u32)> {
    if value == 0 {
        None
    } else {
        Some(
            (
                ((value as int / 0x1_0000_0000) % 0x1_0000_0000) as u32,
                (value as int % 0x1_0000_0000) as u32,
            ),
        )
    }
}

/// Packs a pointer and length into the `i64` return convention used by the
/// transform hooks: high 32 bits are the pointer, low 32 the length.
pub fn pack(ptr: u32, len: u32) -> (value: i64)
    ensures
        value == packed(ptr, len),
{
    proof {
        halves_are_packed(ptr, len);
    }
    ((ptr as i64) << 32) | (len as i64)
}

proof fn halves_are_packed(ptr: u32, len: u32)
    ensures
        ((ptr as i64) << 32) | (len as i64) == packed(ptr, len),
{
    let value: i64 = ((ptr as i64) << 32) | (len as i64);
    assert(value == (if ptr < 0x8000_0000 {
        ptr as int * 0x1_0000_0000 + len as int
    } else {
        (ptr as int - 0x1_0000_0000) * 0x1_0000_0000 + len as int
    })) by (bit_vector)
        requires
            value == ((ptr as i64) << 32) | (len as i64),
    ;
}

/// Inverse of [`pack`]. Returns `None` for 0, which means "no replacement".
pub fn unpack(value: i64) -> (buffer: Option<(u32, u32)>)
    ensures
        buffer == unpacked(value),
{
    if value == 0 {
        return None;
    }
    let ptr: u32 = #[verifier::truncate] ((value >> 32) as u32);
    let len: u32 = #[verifier::truncate] ((value & 0xffff_ffff) as u32);
    proof {
        assert(value == ((ptr as i64) << 32) | (len as i64)) by (bit_vector)
            requires
                ptr == (value >> 32) as u32,
                len == (value & 0xffff_ffff) as u32,
        ;
        halves_are_packed(ptr, len);
    }
    Some((ptr, len))
}

// ---- laws ---------------------------------------------------------------

/// A buffer comes back as it was packed, a zero-length one too. Only the empty
/// buffer at zero does not: it means that there is no replacement.
pub proof fn pack_and_unpack_are_inverse(ptr: u32, len: u32)
    requires
        ptr != 0 || len != 0,
    ensures
        i64::MIN <= packed(ptr, len) <= i64::MAX,
        unpacked(packed(ptr, len) as i64) == Some((ptr, len)),
{
}

/// Every number but zero is a buffer packed.
pub proof fn every_number_is_packed(value: i64)
    requires
        value != 0,
    ensures
        unpacked(value) matches Some(buffer) && packed(buffer.0, buffer.1) == value,
{
}

} // verus!
