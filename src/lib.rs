//! Adds structured doc blocks (`/** ... */` with `@param` and `@returns`
//! tags) above the functions and methods of TypeScript source text, and
//! leaves every other byte of the text as it stands.
//!
//! The text is parsed with tree-sitter; the parser's tree is copied into
//! [`tree::SyntaxNode`], and the walk over it is verified against the
//! specification functions of [`walker`].

pub mod comment;
pub mod jsdoc;
pub mod laws;
pub mod parse;
pub mod signature;
pub mod text;
pub mod tree;
pub mod walker;
