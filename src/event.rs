//! The structural events that the renderer consumes.
use vstd::prelude::*;

verus! {

/// The level of a heading, one to six.
#[derive(Clone, Copy, Debug, PartialEq, Eq)]
pub enum HeadingLevel {
    H1,
    H2,
    H3,
    H4,
    H5,
    H6,
}

/// How a code block was written in the source text.
#[derive(Clone, Debug, PartialEq, Eq)]
pub enum CodeBlockKind {
    /// Indented by four spaces; carries no language.
    Indented,
    /// Between fences; carries the text after the opening fence, which may be empty.
    Fenced(String),
}

/// The kind of a structural element, as carried by its start event.
#[derive(Clone, Debug, PartialEq, Eq)]
pub enum Tag {
    Paragraph,
    Heading(HeadingLevel),
    BlockQuote,
    CodeBlock(CodeBlockKind),
    List,
    Item,
    Emphasis,
    Strong,
    Strikethrough,
    /// A link with its destination.
    Link(String),
    /// An image with its source.
    Image(String),
    Table,
    TableHead,
    TableRow,
    TableCell,
    /// A footnote definition with its label.
    FootnoteDefinition(String),
    /// An element that has no HTML form here (definition lists, metadata, HTML blocks).
    Other,
}

/// The kind of a structural element, as carried by its end event.
#[derive(Clone, Copy, Debug, PartialEq, Eq)]
pub enum TagEnd {
    Paragraph,
    Heading(HeadingLevel),
    BlockQuote,
    CodeBlock,
    List,
    Item,
    Emphasis,
    Strong,
    Strikethrough,
    Link,
    Image,
    Table,
    TableHead,
    TableRow,
    TableCell,
    /// The end of an element that writes no closing tag (footnote
    /// definitions, definition lists, metadata, HTML blocks).
    Other,
}

/// One point of the event stream.
#[derive(Clone, Debug, PartialEq, Eq)]
pub enum Event {
    Start(Tag),
    End(TagEnd),
    Text(String),
    Code(String),
    InlineMath(String),
    DisplayMath(String),
    /// A block of raw HTML.
    Html(String),
    /// Raw HTML inside a paragraph.
    InlineHtml(String),
    FootnoteReference(String),
    SoftBreak,
    HardBreak,
    Rule,
    /// A task list checkbox; `true` when it is checked.
    TaskListMarker(bool),
}

} // verus!
