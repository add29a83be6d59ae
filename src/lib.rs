//! A terminal emulation core: an escape-sequence parser driving a character
//! grid, a key encoder for the wire format a terminal host expects, and the
//! decision rules that follow a child process's working directory.
pub mod cwd;
pub mod input;
pub mod pane;
pub mod parser;
pub mod style;
pub mod text;
pub mod tree;
pub mod vterm;
