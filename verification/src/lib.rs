//! A terminal for InterSystems IRIS: the screen model, the protocols and the
//! features built on them, each function with its contract.

pub mod calendar;
pub mod clock;
pub mod config;
pub mod features;
pub mod i18n;
pub mod i18n_laws;
pub mod number;
pub mod objectscript;
pub mod plugins;
pub mod pty;
pub mod term;
pub mod text;
pub mod text_laws;
