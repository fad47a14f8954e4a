//! Features layered on top of the terminal.
//!
//! - [`analyze`] hands a transcript to an assistant.
//! - [`autologon`] answers the login prompts of a session.
//! - [`doc_lookup`], [`doc_answer`] and [`doc_session`] find out what the pieces
//!   of a global mean.
//! - [`export`] writes the screen or the history out as text or HTML.
//! - [`global_browser`] asks for the nodes of a global and reads the answer.
//! - [`history`] keeps the commands that Up and Down recall.
//! - [`logging`] decides what a session's transcript keeps.
//! - [`macros`] are the user's own commands, read with [`xml`].
//! - [`natives`] are the commands the terminal comes with.
//! - [`snake`] is a game.
//! - [`update`] and [`swap`] find a newer build and put it in place.

pub mod analyze;
pub mod autologon;
pub mod browse_laws;
pub mod capture_laws;
pub mod doc_answer;
pub mod doc_laws;
pub mod doc_lookup;
pub mod doc_session;
pub mod export;
pub mod export_laws;
pub mod fill_laws;
pub mod global_browser;
pub mod global_browser_laws;
pub mod history;
pub mod logging;
pub mod macros;
pub mod macros_laws;
pub mod natives;
pub mod outcome_laws;
pub mod play_laws;
pub mod session_laws;
pub mod snake;
pub mod swap;
pub mod update;
pub mod update_laws;
pub mod xml;
