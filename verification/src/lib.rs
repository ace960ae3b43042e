//! An interpreter for programs written as HTML: each element is an instruction that works
//! on a stack of values, and the children of the first `main` element are the program.
pub mod html;
pub mod instruction_laws;
pub mod interp;
pub mod laws;
pub mod ops;
pub mod program;
pub mod semantics;
pub mod text;
pub mod value;
pub mod vars;

pub use interp::{exec_html_instructions, html_exec_loop};
pub use value::HtmlValueType;
