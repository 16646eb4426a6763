//! Core of a small interactive command shell: UTF-8 decoding of the input
//! byte stream, a line editor with control-character handling, command
//! parsing, executable resolution over a search path, and prompt and
//! error-message construction.
//!
//! Transport and process plumbing (terminal or serial I/O, environment
//! lookup, child processes) stay outside; everything here works on plain
//! byte and character sequences and carries a verified contract.
pub mod decode;
pub mod editor;
pub mod messages;
pub mod parse;
pub mod prompt;
pub mod resolve;
pub mod text;
