//! Plugin interface.
//!
//! Plugins are WebAssembly modules, chosen over native libraries for two
//! reasons: a sandbox (a plugin gets no filesystem, network, or process access
//! it is not handed) and no ABI to break across compiler versions.
//!
//! The interface is deliberately tiny. Plugins observe and transform the byte
//! streams, and can ask to send text or set a status message. They cannot reach
//! the session, the configuration, or the credential store.
//!
//! [`shells`] is the other kind, and it is a different shape on purpose: a shell
//! plugin is a declaration - a name and a program - rather than code. A sandbox
//! that exists to stop a plugin starting a process is no place to put one whose
//! whole job is starting a process.

pub mod api;
pub mod host;
pub mod plugin_laws;
pub mod shells;
