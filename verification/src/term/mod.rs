//! Terminal emulation: cells, the grid they make up, and what is read from it.
//!
//! - [`cell`] and [`row`] are what a screen is made of.
//! - [`grid`] holds the rows, the cursor, the scrollback and the wrapping;
//!   [`state`] says what each of its operations does.
//! - [`vt`] frames the byte stream and [`parser`] carries it out on a grid.
//! - [`encoding`] translates between what is on the wire and UTF-8.
//! - [`lineedit`] reads the command line off the screen, and [`syntax`] what is
//!   written on it.
//! - [`palette`] is the colours.

pub mod cell;
pub mod encoding;
pub mod encoding_laws;
pub mod grid;
pub mod grid_laws;
pub mod lineedit;
pub mod lineedit_laws;
pub mod palette;
pub mod palette_laws;
pub mod parser;
pub mod parser_laws;
pub mod row;
pub mod state;
pub mod syntax;
pub mod syntax_laws;
pub mod vt;
