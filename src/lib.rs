//! Interactive terminal prompts: editable text fields, vertical selection
//! lists and inline choices, as state machines whose screen output is
//! proved to keep the terminal consistent with their state.
pub mod terminal;
pub mod screen;
pub mod text;
pub mod keys;
pub mod field;
pub mod choice;
pub mod wizard;
pub mod banner;
