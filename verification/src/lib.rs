//! A macro preprocessor for a small C-like language.
//!
//! The library rewrites a character stream before tokenization: it expands
//! object-like and function-like macros, resolves `#ifndef`/`#else`/`#endif`
//! conditionals, inlines nested source files, and strips comments, while
//! leaving string literals untouched.
//!
//! The behaviour of every executable function is pinned down by a
//! specification-level interpreter (see `model`), and each executable
//! function is proved to return exactly what the interpreter says. The
//! `laws` module states and proves the library's general properties over
//! that interpreter.

use vstd::prelude::*;

pub mod err;
pub mod laws;
pub mod model;
pub mod scan;
pub mod table;
pub mod text;

pub use err::{ErrKind, PError, Signal};
pub use scan::{expand_macro, parse_def, process_ifndef, process_input, process_input_rec, Input};
pub use table::{Def, DefTable, Files, SourceFile};

verus! {

} // verus!
