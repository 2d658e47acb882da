pub mod ansi;
pub mod layout;
pub mod objects;
pub mod types;
