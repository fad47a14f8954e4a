//! How a session is reached: the Telnet protocol, what is launched and with
//! which arguments, and what a session reports.
//!
//! - [`launcher`] works out how to start a terminal into an instance.
//! - [`session`] puts together what a reader hands over.
//! - [`telnet`] speaks enough of the protocol to log in and carry a session, and
//!   [`remote`] is such a session.

pub mod launch_laws;
pub mod launcher;
pub mod remote;
pub mod session;
pub mod telnet;
pub mod telnet_laws;
