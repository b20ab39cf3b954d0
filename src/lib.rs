//! Turns a directory tree into a numbered series of size-bounded text
//! messages: files are scanned, classified as text or binary, loaded, and the
//! loaded text is cut into grapheme-aligned chunks behind a prologue.
pub mod classify;
pub mod controller;
pub mod file_info;
pub mod folder_info;
pub mod ignore_list;
pub mod install_paths;
pub mod segment;
pub mod text;
