//! Conversion between a structured rich-text document tree ("ADF"), HTML, and
//! Markdown. The core of the crate is a verified, event-driven builder that
//! reconstructs a typed document tree from a stream of HTML lexical events,
//! specified by a total transition function, and a renderer whose output text
//! is fixed exactly by spec-level rendering functions.

pub mod builder;
pub mod event;
pub mod html_builder;
pub mod laws;
pub mod model;
pub mod num;
pub mod outside;
pub mod render;
pub mod text;
pub mod view;

pub use text::clean_surrounding_text;
pub use text::extract_style;
pub use render::adf_to_html;
