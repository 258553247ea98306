//! An in-memory, line-oriented command interpreter over a simulated file
//! hierarchy. A raw input line is tokenized, parsed into typed commands
//! (`cd`, `ls`, `mkdir`, `touch`, `rm`, `rmdir`, chainable with `&&`), and the
//! commands are executed against an arena-backed tree of folders and files.

pub mod commands;
pub mod lexer;
pub mod parser;
pub mod tree;
