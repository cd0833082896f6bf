//! Markdown text to HTML: the event stream comes from pulldown-cmark.
use vstd::prelude::*;
use pulldown_cmark::{CodeBlockKind as MdKind, Event as MdEvent, HeadingLevel as MdLevel};
use pulldown_cmark::{Options, Parser, Tag as MdTag, TagEnd as MdEnd};
use pulldown_cmark::Event::{Code, DisplayMath, End, FootnoteReference, HardBreak, Html};
use pulldown_cmark::Event::{InlineHtml, InlineMath, Rule, SoftBreak, Start, TaskListMarker, Text};
use pulldown_cmark::Tag::{BlockQuote, CodeBlock, Emphasis, FootnoteDefinition, Heading, Image};
use pulldown_cmark::Tag::{Item, Link, List, Paragraph, Strikethrough, Strong, Table, TableCell};
use pulldown_cmark::Tag::{TableHead, TableRow};
use crate::event::{CodeBlockKind, Event, HeadingLevel, Tag, TagEnd};
use crate::render::{render_events, render_spec};

verus! {

#[verifier::external_type_specification]
#[verifier::external_body]
pub struct ExMdEvent<'a>(MdEvent<'a>);

#[verifier::external_type_specification]
#[verifier::external_body]
pub struct ExMdTag<'a>(MdTag<'a>);

#[verifier::external_type_specification]
#[verifier::external_body]
pub struct ExMdTagEnd(MdEnd);

#[verifier::external_type_specification]
#[verifier::external_body]
pub struct ExMdHeadingLevel(MdLevel);

#[verifier::external_type_specification]
#[verifier::external_body]
pub struct ExMdCodeBlockKind<'a>(MdKind<'a>);

/// The events that pulldown-cmark's parser, with tables, footnotes,
/// strikethrough and task lists on, produces for a text.
pub uninterp spec fn parsed_events(text: Seq<char>) -> Seq<Event>;

/// Relies on `pulldown_cmark::Parser::new_ext` with tables, footnotes,
/// strikethrough and task lists on: its events depend on the text alone.
#[verifier::external_body]
fn parse_events(content: &str) -> (r: Vec<Event>)
    ensures
        r@ == parsed_events(content@),
{
    let options = Options::ENABLE_TABLES | Options::ENABLE_FOOTNOTES
        | Options::ENABLE_STRIKETHROUGH | Options::ENABLE_TASKLISTS;
    Parser::new_ext(content, options).map(from_md_event).collect()
}

/// Converts a pulldown-cmark event into the library's event, variant for variant.
#[verifier::external_body]
fn from_md_event(e: MdEvent) -> Event {
    match e {
        Start(t) => Event::Start(from_md_tag(t)),
        End(t) => Event::End(from_md_tag_end(t)),
        Text(s) => Event::Text(s.into()),
        Code(s) => Event::Code(s.into()),
        InlineMath(s) => Event::InlineMath(s.into()),
        DisplayMath(s) => Event::DisplayMath(s.into()),
        Html(s) => Event::Html(s.into()),
        InlineHtml(s) => Event::InlineHtml(s.into()),
        FootnoteReference(s) => Event::FootnoteReference(s.into()),
        SoftBreak => Event::SoftBreak,
        HardBreak => Event::HardBreak,
        Rule => Event::Rule,
        TaskListMarker(b) => Event::TaskListMarker(b),
    }
}

/// Converts a pulldown-cmark start tag, keeping the fields that rendering reads.
#[verifier::external_body]
fn from_md_tag(t: MdTag) -> Tag {
    match t {
        Paragraph => Tag::Paragraph, Item => Tag::Item,
        Heading { level, .. } => Tag::Heading(from_md_level(level)),
        BlockQuote(_) => Tag::BlockQuote, List(_) => Tag::List,
        CodeBlock(k) => Tag::CodeBlock(from_md_code_kind(k)),
        Emphasis => Tag::Emphasis, Strong => Tag::Strong,
        Strikethrough => Tag::Strikethrough,
        Link { dest_url, .. } => Tag::Link(dest_url.into()),
        Image { dest_url, .. } => Tag::Image(dest_url.into()),
        Table(_) => Tag::Table, TableHead => Tag::TableHead,
        TableRow => Tag::TableRow, TableCell => Tag::TableCell,
        FootnoteDefinition(s) => Tag::FootnoteDefinition(s.into()),
        _ => Tag::Other,
    }
}

/// Converts a pulldown-cmark code block kind, variant for variant.
#[verifier::external_body]
fn from_md_code_kind(k: MdKind) -> CodeBlockKind {
    match k {
        MdKind::Indented => CodeBlockKind::Indented,
        MdKind::Fenced(s) => CodeBlockKind::Fenced(s.into()),
    }
}

/// Converts a pulldown-cmark end tag, variant for variant.
#[verifier::external_body]
fn from_md_tag_end(t: MdEnd) -> TagEnd {
    match t {
        MdEnd::Paragraph => TagEnd::Paragraph, MdEnd::Item => TagEnd::Item,
        MdEnd::Heading(level) => TagEnd::Heading(from_md_level(level)),
        MdEnd::BlockQuote(_) => TagEnd::BlockQuote, MdEnd::CodeBlock => TagEnd::CodeBlock,
        MdEnd::List(_) => TagEnd::List, MdEnd::Emphasis => TagEnd::Emphasis,
        MdEnd::Strong => TagEnd::Strong, MdEnd::Strikethrough => TagEnd::Strikethrough,
        MdEnd::Link => TagEnd::Link, MdEnd::Image => TagEnd::Image,
        MdEnd::Table => TagEnd::Table, MdEnd::TableHead => TagEnd::TableHead,
        MdEnd::TableRow => TagEnd::TableRow, MdEnd::TableCell => TagEnd::TableCell,
        _ => TagEnd::Other,
    }
}

/// Converts a pulldown-cmark heading level, variant for variant.
#[verifier::external_body]
fn from_md_level(l: MdLevel) -> HeadingLevel {
    match l {
        MdLevel::H1 => HeadingLevel::H1,
        MdLevel::H2 => HeadingLevel::H2,
        MdLevel::H3 => HeadingLevel::H3,
        MdLevel::H4 => HeadingLevel::H4,
        MdLevel::H5 => HeadingLevel::H5,
        MdLevel::H6 => HeadingLevel::H6,
    }
}

/// Renders markdown text as HTML: the text is parsed into events, which are
/// then rendered one after the other.
pub fn parse_markdown(content: &str) -> (r: String)
    ensures
        r@ == render_spec(parsed_events(content@)),
{
    let events = parse_events(content);
    render_events(&events)
}

} // verus!
