//! Diagram previews for Markdown documents.

pub mod cache;
pub mod d2;
pub mod d2_laws;
pub mod d2_render;
pub mod d2_view;
pub mod diagram;
pub mod font;
pub mod json;
pub mod markdown;
pub mod mermaid;
pub mod paths;
pub mod settings;
pub mod text;
