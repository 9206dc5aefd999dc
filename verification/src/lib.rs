//! A contact directory: names and phone numbers, filed under the full name,
//! with the commands that add, find and delete them and the text that shows
//! them in aligned columns.

pub mod command;
pub mod contact;
pub mod directory;
pub mod render;
pub mod text;
