//! Rewrites the `aspect-ratio` declarations of a style-sheet tree into the
//! percentage-padding technique and prints the tree back as indented text.
//!
//! `tree` holds the tree and its model, `ratio` finds the ratio expressions
//! of a value and puts percentages in their place, `transform` walks the tree
//! and rewrites it, `printer` writes it out, and `laws` states what holds of
//! both on every tree.
//!
//! The percentage of a ratio is a single-precision number, and this crate
//! holds no floating-point arithmetic. A caller therefore goes in three
//! steps: `AspectRatioMini::ratio_operands` lists the operands of the ratio
//! expressions of a tree, the caller works out a `RatioEvaluation` for each,
//! and `AspectRatioMini::transform` rewrites and prints the tree from them.

pub mod laws;
pub mod printer;
pub mod ratio;
pub mod text;
pub mod transform;
pub mod tree;

pub use printer::SimplePrettier;
pub use transform::AspectRatioMini;
