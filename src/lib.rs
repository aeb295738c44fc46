//! Generation of a command-line interface from a declaration: the option
//! text grammar, the shapes of declared types, the argument schema, the
//! dispatch of a chosen sub-command and the store of global options.
pub mod dispatch;
pub mod generate;
pub mod globals;
pub mod options;
pub mod schema;
pub mod shape;
pub mod text;
