//! The command line: its options, how tokens become them, and what each command runs.
pub mod args;
pub mod codec_option;
pub mod builder;
pub mod flag;
pub mod iter;
pub mod parse;
pub mod parser;
pub mod pipeline;
pub mod executor;
pub mod runner;
