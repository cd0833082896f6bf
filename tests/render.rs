use mdhtml::{render_events, CodeBlockKind, Event, HeadingLevel, Renderer, Tag, TagEnd};

fn s(t: &str) -> String {
    t.to_string()
}

#[test]
fn heading_levels_match_on_open_and_close() {
    let levels = [
        (HeadingLevel::H1, 1),
        (HeadingLevel::H2, 2),
        (HeadingLevel::H3, 3),
        (HeadingLevel::H4, 4),
        (HeadingLevel::H5, 5),
        (HeadingLevel::H6, 6),
    ];
    for (level, n) in levels {
        let events = vec![
            Event::Start(Tag::Heading(level)),
            Event::Text(s("T")),
            Event::End(TagEnd::Heading(level)),
        ];
        assert_eq!(render_events(&events), format!("<h{}>T</h{}>\n", n, n));
    }
}

#[test]
fn fenced_rust_block_has_language_class() {
    let events = vec![
        Event::Start(Tag::CodeBlock(CodeBlockKind::Fenced(s("rust")))),
        Event::Text(s("fn main() {}\n")),
        Event::End(TagEnd::CodeBlock),
    ];
    assert_eq!(
        render_events(&events),
        "<pre><code class=\"language-rust\">fn main() {}\n</code></pre>\n"
    );
}

#[test]
fn blank_or_missing_language_is_bare_code() {
    for kind in [CodeBlockKind::Fenced(s("")), CodeBlockKind::Fenced(s("   ")), CodeBlockKind::Indented] {
        let events = vec![Event::Start(Tag::CodeBlock(kind)), Event::End(TagEnd::CodeBlock)];
        assert_eq!(render_events(&events), "<pre><code></code></pre>\n");
    }
}

#[test]
fn language_is_trimmed_and_escaped() {
    let events = vec![Event::Start(Tag::CodeBlock(CodeBlockKind::Fenced(s(" c<+> "))))];
    assert_eq!(render_events(&events), "<pre><code class=\"language-c&lt;+&gt;\">");
}

#[test]
fn image_alt_text_is_gathered() {
    let events = vec![
        Event::Start(Tag::Image(s("x.png"))),
        Event::Text(s("a")),
        Event::SoftBreak,
        Event::Text(s("b")),
        Event::End(TagEnd::Image),
    ];
    assert_eq!(render_events(&events), "<img src=\"x.png\" alt=\"a b\" />");
}

#[test]
fn open_image_drops_other_events() {
    let events = vec![
        Event::Start(Tag::Image(s("p\"q.png"))),
        Event::Start(Tag::Emphasis),
        Event::Text(s("x<")),
        Event::End(TagEnd::Emphasis),
        Event::HardBreak,
        Event::Code(s("y")),
        Event::Rule,
        Event::Html(s("<b>")),
        Event::TaskListMarker(true),
        Event::End(TagEnd::Image),
        Event::Text(s("after")),
    ];
    assert_eq!(render_events(&events), "<img src=\"p&quot;q.png\" alt=\"x&lt; y\" />after");
}

#[test]
fn unterminated_image_drops_the_rest() {
    let events = vec![
        Event::Text(s("before")),
        Event::Start(Tag::Image(s("x.png"))),
        Event::Text(s("a")),
        Event::Start(Tag::Paragraph),
        Event::End(TagEnd::Paragraph),
    ];
    assert_eq!(render_events(&events), "before");
}

#[test]
fn link_destination_goes_in_href() {
    let events = vec![
        Event::Start(Tag::Link(s("a&b"))),
        Event::Text(s("click")),
        Event::End(TagEnd::Link),
    ];
    assert_eq!(render_events(&events), "<a href=\"a&amp;b\">click</a>");
}

#[test]
fn link_end_without_start() {
    let events = vec![Event::End(TagEnd::Link)];
    assert_eq!(render_events(&events), "</a>");
}

#[test]
fn raw_html_is_verbatim() {
    let events = vec![Event::Html(s("<div class=\"x\">")), Event::InlineHtml(s("<i>&"))];
    assert_eq!(render_events(&events), "<div class=\"x\"><i>&");
}

#[test]
fn task_markers() {
    assert_eq!(
        render_events(&vec![Event::TaskListMarker(true)]),
        "<input type=\"checkbox\" checked disabled> "
    );
    assert_eq!(
        render_events(&vec![Event::TaskListMarker(false)]),
        "<input type=\"checkbox\" disabled> "
    );
}

#[test]
fn footnotes_escape_the_name_in_both_places() {
    let events = vec![
        Event::FootnoteReference(s("a<b")),
        Event::Start(Tag::FootnoteDefinition(s("n&m"))),
        Event::End(TagEnd::Other),
    ];
    assert_eq!(
        render_events(&events),
        "<a href=\"#fn-a&lt;b\">[^a&lt;b]</a><div id=\"fn-n&amp;m\">"
    );
}

#[test]
fn math_uses_single_dollars() {
    let events = vec![Event::InlineMath(s("x<1")), Event::DisplayMath(s("y"))];
    assert_eq!(render_events(&events), "$x&lt;1$$y$");
}

#[test]
fn breaks_rules_and_code_spans() {
    let events = vec![
        Event::Text(s("a")),
        Event::SoftBreak,
        Event::Text(s("b")),
        Event::HardBreak,
        Event::Code(s("<c>")),
        Event::Rule,
    ];
    assert_eq!(render_events(&events), "a b<br>\n<code>&lt;c&gt;</code><hr>\n");
}

#[test]
fn block_and_inline_closers() {
    let events = vec![
        Event::Start(Tag::BlockQuote),
        Event::Start(Tag::Paragraph),
        Event::Start(Tag::Emphasis),
        Event::Start(Tag::Strong),
        Event::Start(Tag::Strikethrough),
        Event::End(TagEnd::Strikethrough),
        Event::End(TagEnd::Strong),
        Event::End(TagEnd::Emphasis),
        Event::End(TagEnd::Paragraph),
        Event::End(TagEnd::BlockQuote),
    ];
    assert_eq!(
        render_events(&events),
        "<blockquote><p><em><strong><del></del></strong></em></p>\n</blockquote>\n"
    );
}

#[test]
fn table_markup() {
    let events = vec![
        Event::Start(Tag::Table),
        Event::Start(Tag::TableHead),
        Event::Start(Tag::TableCell),
        Event::Text(s("h")),
        Event::End(TagEnd::TableCell),
        Event::End(TagEnd::TableHead),
        Event::Start(Tag::TableRow),
        Event::Start(Tag::TableCell),
        Event::End(TagEnd::TableCell),
        Event::End(TagEnd::TableRow),
        Event::End(TagEnd::Table),
        Event::Start(Tag::Other),
        Event::End(TagEnd::Other),
    ];
    assert_eq!(
        render_events(&events),
        "<table><thead><td>h</td></thead><tr><td></td></tr>\n</table>\n"
    );
}

#[test]
fn list_markup() {
    let events = vec![
        Event::Start(Tag::List),
        Event::Start(Tag::Item),
        Event::Text(s("i")),
        Event::End(TagEnd::Item),
        Event::End(TagEnd::List),
    ];
    assert_eq!(render_events(&events), "<ul><li>i</li>\n</ul>\n");
}

#[test]
fn renderer_step_by_step() {
    let mut r = Renderer::new();
    r.push_event(&Event::Start(Tag::Paragraph));
    r.push_event(&Event::Text(s("x")));
    r.push_event(&Event::End(TagEnd::Paragraph));
    assert_eq!(r.finish(), "<p>x</p>\n");
}

#[test]
fn empty_stream_renders_nothing() {
    assert_eq!(render_events(&Vec::new()), "");
}

#[test]
fn fenced_open_for_trimmed_languages() {
    assert_eq!(mdhtml::render::fenced_code_open("rust"), "<pre><code class=\"language-rust\">");
    assert_eq!(mdhtml::render::fenced_code_open(""), "<pre><code>");
    assert_eq!(mdhtml::render::fenced_code_open("a\"b"), "<pre><code class=\"language-a&quot;b\">");
}

#[test]
fn language_trims_unicode_white_space() {
    let events = vec![Event::Start(Tag::CodeBlock(CodeBlockKind::Fenced(s("\u{3000}\u{a0}rust\u{2009}\t"))))];
    assert_eq!(render_events(&events), "<pre><code class=\"language-rust\">");
}
