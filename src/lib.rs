//! Field-level codecs for a serialization framework: a comma-joined list of
//! strings (required and optional), and a width fold that turns full-width
//! Latin letters, digits and brackets into their half-width forms.
//!
//! Each codec is a pair of pure functions, `serialize` (in-memory value to
//! the scalar written out) and `deserialize` (scalar read in to the in-memory
//! value), with contracts over the spec functions of its module.
pub mod text;
pub mod normalize2ascii;
pub mod separate_by_comma;
pub mod option_separate_by_comma;
