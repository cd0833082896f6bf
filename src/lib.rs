//! Rendering of markdown into HTML fragments.
//!
//! A markdown text is parsed by pulldown-cmark into a stream of structural
//! events; the renderer turns that stream into HTML in one forward pass.
pub mod escape;
pub mod event;
pub mod markdown;
pub mod render;

pub use escape::escape_html;
pub use event::{CodeBlockKind, Event, HeadingLevel, Tag, TagEnd};
pub use markdown::parse_markdown;
pub use render::{render_events, Renderer};
