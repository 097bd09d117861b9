//! Build-time lifting of `cas()` style chains inside JSX spreads.
//!
//! - [`ast`]: the part of an expression tree that the walker reads.
//! - [`walker`]: a chain expression to its op list.
//! - [`ir`]: the op list and its JSON text.
//! - [`modifiers`]: the modifier methods and the scopes they open.
//! - [`visitor`]: import scanning and the JSX-spread rewrite decisions.
//! - [`laws`]: properties that hold of every input.
//! - [`meaning`]: what each step, literal and import gives, over its inputs.
//! - [`text`]: character and string helpers.

pub mod ast;
pub mod ir;
pub mod laws;
pub mod meaning;
pub mod modifiers;
pub mod text;
pub mod visitor;
pub mod walker;
