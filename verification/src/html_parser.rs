//! The HTML grammar: tags, attributes, comments, elements and text nodes,
//! together with the canonical, indentation-aware renderer.

pub mod attribute;
pub mod comment;
pub mod element;
pub mod node;
pub mod tag;
pub mod text;
