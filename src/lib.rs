//! Document conversion: Markdown to HTML (plain and as a styled page),
//! naive LaTeX command stripping, and a MathML envelope for formulas.
pub mod text;
pub mod latex;
pub mod markdown;
pub mod result;
