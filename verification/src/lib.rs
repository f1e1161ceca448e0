//! Transplanter: converters from Rust and from a Scheme-like Lisp into the
//! Python dialect of The Farmer Was Replaced, with the helpers around them.
#![allow(unused_imports)]

pub mod cli;
pub mod gui_layout;
pub mod gui_text;
pub mod language;
pub mod lisp;
pub mod lisp_check;
pub mod paths;
pub mod project;
pub mod rust_py;
pub mod text;
pub mod transplanter;
pub mod updater;
pub mod watch;
pub mod workspace;
pub mod workspace_setup;

pub use crate::transplanter::{
    check_lisp_source, check_source, compile_lisp_source, compile_source,
    lisp_to_python_transplanter, rust_to_python_transplanter, Converter, Transplanter,
};
