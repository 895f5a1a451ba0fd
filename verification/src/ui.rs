//! What the user interface decides: how keys change the input line, the
//! selection and the mode, and which requests they lead to. Drawing and
//! reading the terminal are not done here.

pub mod insert_note;
pub mod menu;
pub mod tui;
