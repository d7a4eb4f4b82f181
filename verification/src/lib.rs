//! Dense row-major matrices over arbitrary element types, with shape-checked
//! arithmetic and tab-separated text rendering.
//!
//! - [`matrix`]: the matrix type, its constructor, `+`, `-`, unary `-`, `*`
//!   and `render`.
//! - [`element`]: what the operations ask of the element type's operators
//!   and promise of their results.
//! - [`text`]: text forms of elements, and joining and splitting of text.
//! - [`string`]: a text element whose `+` is concatenation.
//! - [`algebra`]: laws of the operations.

pub mod algebra;
pub mod element;
pub mod matrix;
pub mod string;
pub mod text;
