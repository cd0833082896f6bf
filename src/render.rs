//! The renderer: a single forward pass over an event stream that writes HTML.
use vstd::prelude::*;
use vstd::string::*;
use crate::escape::{escape_html, escape_spec};
use crate::event::{CodeBlockKind, Event, HeadingLevel, Tag, TagEnd};

verus! {

/// Whether `c` has Unicode's White_Space property, the whitespace that
/// `char::is_whitespace` and `str::trim` go by.
pub open spec fn is_white_space(c: char) -> bool {
    let u = c as u32;
    (0x9 <= u <= 0xd) || u == 0x20 || u == 0x85 || u == 0xa0 || u == 0x1680 || (0x2000 <= u
        <= 0x200a) || u == 0x2028 || u == 0x2029 || u == 0x202f || u == 0x205f || u == 0x3000
}

/// `s` without its leading whitespace.
pub open spec fn trim_start(s: Seq<char>) -> Seq<char>
    decreases s.len(),
{
    if s.len() > 0 && is_white_space(s[0]) {
        trim_start(s.drop_first())
    } else {
        s
    }
}

/// `s` without its trailing whitespace.
pub open spec fn trim_end(s: Seq<char>) -> Seq<char>
    decreases s.len(),
{
    if s.len() > 0 && is_white_space(s.last()) {
        trim_end(s.drop_last())
    } else {
        s
    }
}

/// `s` without its leading and trailing whitespace.
pub open spec fn trimmed(s: Seq<char>) -> Seq<char> {
    trim_end(trim_start(s))
}

/// Relies on `str::trim`: the text with leading and trailing White_Space
/// characters removed.
#[verifier::external_body]
fn trim_str(s: &str) -> (r: &str)
    ensures
        r@ == trimmed(s@),
{
    s.trim()
}

/// The renderer's state, as values.
pub struct RenderState {
    /// The HTML written so far.
    pub html: Seq<char>,
    /// Whether a code block is open.
    pub in_code_block: bool,
    /// The source and the alt text gathered so far of the open image, if any.
    pub image: Option<(Seq<char>, Seq<char>)>,
}

/// The state before the first event.
pub open spec fn initial_state() -> RenderState {
    RenderState { html: Seq::empty(), in_code_block: false, image: None }
}

/// The digit that names a heading level.
pub open spec fn level_digit(l: HeadingLevel) -> char {
    match l {
        HeadingLevel::H1 => '1',
        HeadingLevel::H2 => '2',
        HeadingLevel::H3 => '3',
        HeadingLevel::H4 => '4',
        HeadingLevel::H5 => '5',
        HeadingLevel::H6 => '6',
    }
}

pub open spec fn heading_open(l: HeadingLevel) -> Seq<char> {
    match l {
        HeadingLevel::H1 => "<h1>"@,
        HeadingLevel::H2 => "<h2>"@,
        HeadingLevel::H3 => "<h3>"@,
        HeadingLevel::H4 => "<h4>"@,
        HeadingLevel::H5 => "<h5>"@,
        HeadingLevel::H6 => "<h6>"@,
    }
}

pub open spec fn heading_close(l: HeadingLevel) -> Seq<char> {
    match l {
        HeadingLevel::H1 => "</h1>\n"@,
        HeadingLevel::H2 => "</h2>\n"@,
        HeadingLevel::H3 => "</h3>\n"@,
        HeadingLevel::H4 => "</h4>\n"@,
        HeadingLevel::H5 => "</h5>\n"@,
        HeadingLevel::H6 => "</h6>\n"@,
    }
}

/// The opening of a fenced code block whose language, once trimmed, is `lang`.
pub open spec fn fenced_open(lang: Seq<char>) -> Seq<char> {
    if lang.len() == 0 {
        "<pre><code>"@
    } else {
        "<pre><code class=\"language-"@ + escape_spec(lang) + "\">"@
    }
}

/// The opening of a code block: a language class only for a fenced block whose
/// trimmed language is not empty.
pub open spec fn code_open(kind: CodeBlockKind) -> Seq<char> {
    match kind {
        CodeBlockKind::Indented => "<pre><code>"@,
        CodeBlockKind::Fenced(lang) => fenced_open(trimmed(lang@)),
    }
}

/// What a start event writes.
pub open spec fn start_markup(t: Tag) -> Seq<char> {
    match t {
        Tag::Paragraph => "<p>"@,
        Tag::Heading(l) => heading_open(l),
        Tag::BlockQuote => "<blockquote>"@,
        Tag::CodeBlock(kind) => code_open(kind),
        Tag::List => "<ul>"@,
        Tag::Item => "<li>"@,
        Tag::Emphasis => "<em>"@,
        Tag::Strong => "<strong>"@,
        Tag::Strikethrough => "<del>"@,
        Tag::Link(dest) => "<a href=\""@ + escape_spec(dest@) + "\">"@,
        Tag::Image(_) => Seq::empty(),
        Tag::Table => "<table>"@,
        Tag::TableHead => "<thead>"@,
        Tag::TableRow => "<tr>"@,
        Tag::TableCell => "<td>"@,
        Tag::FootnoteDefinition(name) => "<div id=\"fn-"@ + escape_spec(name@) + "\">"@,
        Tag::Other => Seq::empty(),
    }
}

/// What an end event writes.
pub open spec fn end_markup(t: TagEnd) -> Seq<char> {
    match t {
        TagEnd::Paragraph => "</p>\n"@,
        TagEnd::Heading(l) => heading_close(l),
        TagEnd::BlockQuote => "</blockquote>\n"@,
        TagEnd::CodeBlock => "</code></pre>\n"@,
        TagEnd::List => "</ul>\n"@,
        TagEnd::Item => "</li>\n"@,
        TagEnd::Emphasis => "</em>"@,
        TagEnd::Strong => "</strong>"@,
        TagEnd::Strikethrough => "</del>"@,
        TagEnd::Link => "</a>"@,
        TagEnd::Table => "</table>\n"@,
        TagEnd::TableHead => "</thead>"@,
        TagEnd::TableRow => "</tr>\n"@,
        TagEnd::TableCell => "</td>"@,
        _ => Seq::empty(),
    }
}

/// What an event other than a start or an end writes.
pub open spec fn leaf_markup(e: Event) -> Seq<char> {
    match e {
        Event::Text(t) => escape_spec(t@),
        Event::Code(t) => "<code>"@ + escape_spec(t@) + "</code>"@,
        Event::InlineMath(t) => "$"@ + escape_spec(t@) + "$"@,
        Event::DisplayMath(t) => "$"@ + escape_spec(t@) + "$"@,
        Event::Html(t) => t@,
        Event::InlineHtml(t) => t@,
        Event::FootnoteReference(name) => "<a href=\"#fn-"@ + escape_spec(name@) + "\">[^"@
            + escape_spec(name@) + "]</a>"@,
        Event::SoftBreak => " "@,
        Event::HardBreak => "<br>\n"@,
        Event::Rule => "<hr>\n"@,
        Event::TaskListMarker(done) => if done {
            "<input type=\"checkbox\" checked disabled> "@
        } else {
            "<input type=\"checkbox\" disabled> "@
        },
        _ => Seq::empty(),
    }
}

/// The tag that closes an image, built from its source and alt text.
pub open spec fn img_markup(src: Seq<char>, alt: Seq<char>) -> Seq<char> {
    "<img src=\""@ + escape_spec(src) + "\" alt=\""@ + escape_spec(alt) + "\" />"@
}

/// How an event changes the state while an image is open: text is gathered
/// into the alt text, breaks become spaces, the image's end writes the image,
/// and every other event is dropped.
pub open spec fn image_step(s: RenderState, src: Seq<char>, alt: Seq<char>, e: Event) -> RenderState {
    match e {
        Event::End(TagEnd::Image) => RenderState { html: s.html + img_markup(src, alt), image: None, ..s },
        Event::Text(t) => RenderState { image: Some((src, alt + t@)), ..s },
        Event::Code(t) => RenderState { image: Some((src, alt + t@)), ..s },
        Event::SoftBreak => RenderState { image: Some((src, alt.push(' '))), ..s },
        Event::HardBreak => RenderState { image: Some((src, alt.push(' '))), ..s },
        _ => s,
    }
}

/// How one event changes the state.
pub open spec fn step(s: RenderState, e: Event) -> RenderState {
    match s.image {
        Some((src, alt)) => image_step(s, src, alt, e),
        None => match e {
            Event::Start(t) => RenderState {
                html: s.html + start_markup(t),
                in_code_block: if t is CodeBlock { true } else { s.in_code_block },
                image: match t {
                    Tag::Image(src) => Some((src@, Seq::empty())),
                    _ => None,
                },
            },
            Event::End(t) => RenderState {
                html: s.html + end_markup(t),
                in_code_block: if t is CodeBlock { false } else { s.in_code_block },
                image: None,
            },
            _ => RenderState { html: s.html + leaf_markup(e), ..s },
        },
    }
}

/// The state after the events `evs`, one after the other, starting from `s`.
pub open spec fn run(s: RenderState, evs: Seq<Event>) -> RenderState
    decreases evs.len(),
{
    if evs.len() == 0 {
        s
    } else {
        step(run(s, evs.drop_last()), evs.last())
    }
}

/// The HTML that the events `evs` render to.
pub open spec fn render_spec(evs: Seq<Event>) -> Seq<char> {
    run(initial_state(), evs).html
}

/// Whether `e` is the end of an image.
pub open spec fn is_image_end(e: Event) -> bool {
    match e {
        Event::End(TagEnd::Image) => true,
        _ => false,
    }
}

/// The end tag that closes an element opened by `t`, for the elements that
/// write a closing tag.
pub open spec fn closing_tag(t: Tag) -> Option<TagEnd> {
    match t {
        Tag::Paragraph => Some(TagEnd::Paragraph),
        Tag::Heading(l) => Some(TagEnd::Heading(l)),
        Tag::BlockQuote => Some(TagEnd::BlockQuote),
        Tag::CodeBlock(_) => Some(TagEnd::CodeBlock),
        Tag::List => Some(TagEnd::List),
        Tag::Item => Some(TagEnd::Item),
        Tag::Emphasis => Some(TagEnd::Emphasis),
        Tag::Strong => Some(TagEnd::Strong),
        Tag::Strikethrough => Some(TagEnd::Strikethrough),
        Tag::Link(_) => Some(TagEnd::Link),
        Tag::Table => Some(TagEnd::Table),
        Tag::TableHead => Some(TagEnd::TableHead),
        Tag::TableRow => Some(TagEnd::TableRow),
        Tag::TableCell => Some(TagEnd::TableCell),
        _ => None,
    }
}

/// Running two streams one after the other is running their concatenation.
pub proof fn lemma_run_concat(s: RenderState, a: Seq<Event>, b: Seq<Event>)
    ensures
        run(s, a + b) == run(run(s, a), b),
    decreases b.len(),
{
    if b.len() == 0 {
        assert(a + b =~= a);
    } else {
        lemma_run_concat(s, a, b.drop_last());
        assert((a + b).drop_last() =~= a + b.drop_last());
    }
}

/// While an image is open, no event but its end writes anything: the events
/// in between, starts and ends of elements included, leave the HTML as it was
/// and the image open.
pub proof fn lemma_open_image_writes_nothing(s: RenderState, evs: Seq<Event>)
    requires
        s.image is Some,
        forall|i: int| 0 <= i < evs.len() ==> !is_image_end(#[trigger] evs[i]),
    ensures
        run(s, evs).html == s.html,
        run(s, evs).image is Some,
    decreases evs.len(),
{
    if evs.len() > 0 {
        assert(!is_image_end(evs[evs.len() - 1]));
        lemma_open_image_writes_nothing(s, evs.drop_last());
    }
}

proof fn lemma_run_single(s: RenderState, e: Event)
    ensures
        run(s, seq![e]) == step(s, e),
{
    assert(seq![e].drop_last() =~= Seq::<Event>::empty());
    assert(seq![e].last() == e);
    reveal_with_fuel(run, 2);
}

/// An element that writes a closing tag is closed exactly once: from a state
/// with no open image, a start, a body that leaves no image open and the
/// matching end write the start's opening tag, the body's output and then the
/// closing tag, neither of them empty.
pub proof fn lemma_element_closed_once(s: RenderState, t: Tag, body: Seq<Event>)
    requires
        s.image is None,
        closing_tag(t) is Some,
        run(step(s, Event::Start(t)), body).image is None,
    ensures
        ({
            let opened = step(s, Event::Start(t));
            let inner = run(opened, body);
            &&& opened.html == s.html + start_markup(t)
            &&& run(s, seq![Event::Start(t)] + body + seq![Event::End(closing_tag(t)->0)]).html
                == inner.html + end_markup(closing_tag(t)->0)
            &&& start_markup(t).len() > 0
            &&& end_markup(closing_tag(t)->0).len() > 0
        }),
{
    let opened = step(s, Event::Start(t));
    let end = Event::End(closing_tag(t)->0);
    let first = seq![Event::Start(t)];
    lemma_run_concat(s, first + body, seq![end]);
    lemma_run_concat(s, first, body);
    lemma_run_single(s, Event::Start(t));
    lemma_run_single(run(opened, body), end);
    lemma_markup_nonempty(t);
}

proof fn lemma_markup_nonempty(t: Tag)
    requires
        closing_tag(t) is Some,
    ensures
        start_markup(t).len() > 0,
        end_markup(closing_tag(t)->0).len() > 0,
{
    reveal_strlit("<p>");
    reveal_strlit("</p>\n");
    reveal_strlit("<h1>");
    reveal_strlit("<h2>");
    reveal_strlit("<h3>");
    reveal_strlit("<h4>");
    reveal_strlit("<h5>");
    reveal_strlit("<h6>");
    reveal_strlit("</h1>\n");
    reveal_strlit("</h2>\n");
    reveal_strlit("</h3>\n");
    reveal_strlit("</h4>\n");
    reveal_strlit("</h5>\n");
    reveal_strlit("</h6>\n");
    reveal_strlit("<blockquote>");
    reveal_strlit("</blockquote>\n");
    reveal_strlit("<pre><code>");
    reveal_strlit("<pre><code class=\"language-");
    reveal_strlit("</code></pre>\n");
    reveal_strlit("<ul>");
    reveal_strlit("</ul>\n");
    reveal_strlit("<li>");
    reveal_strlit("</li>\n");
    reveal_strlit("<em>");
    reveal_strlit("</em>");
    reveal_strlit("<strong>");
    reveal_strlit("</strong>");
    reveal_strlit("<del>");
    reveal_strlit("</del>");
    reveal_strlit("<a href=\"");
    reveal_strlit("</a>");
    reveal_strlit("<table>");
    reveal_strlit("</table>\n");
    reveal_strlit("<thead>");
    reveal_strlit("</thead>");
    reveal_strlit("<tr>");
    reveal_strlit("</tr>\n");
    reveal_strlit("<td>");
    reveal_strlit("</td>");
}

/// A heading of level N opens with `<hN>` and closes with `</hN>` and a
/// newline, with the same digit N in both.
pub proof fn lemma_heading_markup(l: HeadingLevel)
    ensures
        heading_open(l) == "<h"@ + seq![level_digit(l)] + ">"@,
        heading_close(l) == "</h"@ + seq![level_digit(l)] + ">\n"@,
        start_markup(Tag::Heading(l)) == heading_open(l),
        end_markup(TagEnd::Heading(l)) == heading_close(l),
{
    reveal_strlit("<h");
    reveal_strlit(">");
    reveal_strlit("</h");
    reveal_strlit(">\n");
    match l {
        HeadingLevel::H1 => {
            reveal_strlit("<h1>");
            reveal_strlit("</h1>\n");
        },
        HeadingLevel::H2 => {
            reveal_strlit("<h2>");
            reveal_strlit("</h2>\n");
        },
        HeadingLevel::H3 => {
            reveal_strlit("<h3>");
            reveal_strlit("</h3>\n");
        },
        HeadingLevel::H4 => {
            reveal_strlit("<h4>");
            reveal_strlit("</h4>\n");
        },
        HeadingLevel::H5 => {
            reveal_strlit("<h5>");
            reveal_strlit("</h5>\n");
        },
        HeadingLevel::H6 => {
            reveal_strlit("<h6>");
            reveal_strlit("</h6>\n");
        },
    }
    assert(heading_open(l) =~= "<h"@ + seq![level_digit(l)] + ">"@);
    assert(heading_close(l) =~= "</h"@ + seq![level_digit(l)] + ">\n"@);
}

/// A fenced code block whose language is empty once trimmed opens as a bare
/// `<pre><code>`; one with a language carries it, escaped, as a
/// `language-` class.
pub proof fn lemma_code_block_language(lang: String)
    ensures
        trimmed(lang@).len() == 0 ==> start_markup(
            Tag::CodeBlock(CodeBlockKind::Fenced(lang)),
        ) == "<pre><code>"@,
        trimmed(lang@).len() > 0 ==> start_markup(Tag::CodeBlock(CodeBlockKind::Fenced(lang)))
            == "<pre><code class=\"language-"@ + escape_spec(trimmed(lang@)) + "\">"@,
{
}

/// Raw HTML, block or inline, is written as it is, without escaping.
pub proof fn lemma_raw_html_verbatim(s: RenderState, t: String)
    requires
        s.image is None,
    ensures
        step(s, Event::Html(t)).html == s.html + t@,
        step(s, Event::InlineHtml(t)).html == s.html + t@,
{
}

/// The elements still open after `evs`, innermost last; `None` where an end
/// does not close the innermost open element, or where the stream holds a
/// start without a closing tag (an image, a footnote definition, `Other`).
pub open spec fn open_elements(evs: Seq<Event>) -> Option<Seq<Tag>>
    decreases evs.len(),
{
    if evs.len() == 0 {
        Some(Seq::empty())
    } else {
        match open_elements(evs.drop_last()) {
            None => None,
            Some(st) => match evs.last() {
                Event::Start(t) => if closing_tag(t) is Some {
                    Some(st.push(t))
                } else {
                    None
                },
                Event::End(c) => if st.len() > 0 && closing_tag(st.last()) == Some(c) {
                    Some(st.drop_last())
                } else {
                    None
                },
                _ => Some(st),
            },
        }
    }
}

/// What an event writes when no image is open.
pub open spec fn markup_of(e: Event) -> Seq<char> {
    match e {
        Event::Start(t) => start_markup(t),
        Event::End(c) => end_markup(c),
        _ => leaf_markup(e),
    }
}

/// The markup of the events `evs`, one after the other.
pub open spec fn markup_concat(evs: Seq<Event>) -> Seq<char>
    decreases evs.len(),
{
    if evs.len() == 0 {
        Seq::empty()
    } else {
        markup_concat(evs.drop_last()) + markup_of(evs.last())
    }
}

proof fn lemma_nested_run(s: RenderState, evs: Seq<Event>)
    requires
        s.image is None,
        open_elements(evs) is Some,
    ensures
        run(s, evs).html == s.html + markup_concat(evs),
        run(s, evs).image is None,
    decreases evs.len(),
{
    if evs.len() == 0 {
        assert(s.html + markup_concat(evs) =~= s.html);
    } else {
        lemma_nested_run(s, evs.drop_last());
        assert(s.html + markup_concat(evs) =~= s.html + markup_concat(evs.drop_last()) + markup_of(
            evs.last(),
        ));
    }
}

proof fn lemma_nested_prefix(evs: Seq<Event>, j: int)
    requires
        open_elements(evs) is Some,
        0 <= j <= evs.len(),
    ensures
        open_elements(evs.take(j)) is Some,
    decreases evs.len(),
{
    if j < evs.len() {
        lemma_nested_prefix(evs.drop_last(), j);
        assert(evs.drop_last().take(j) =~= evs.take(j));
    } else {
        assert(evs.take(j) =~= evs);
    }
}

/// In a well-nested stream, where every element opened is closed by the end
/// of its innermost open element and none is left open, each element is
/// closed exactly once and in reverse order of opening: the output is the
/// events' markup one after the other, each start of an element pushes it on
/// the open elements, and each end writes the closing tag of the innermost
/// open element and pops it.
pub proof fn lemma_well_nested_balanced(evs: Seq<Event>)
    requires
        open_elements(evs) == Some(Seq::<Tag>::empty()),
    ensures
        render_spec(evs) == markup_concat(evs),
        forall|j: int|
            #![trigger evs[j]]
            0 <= j < evs.len() ==> {
                let st = open_elements(evs.take(j))->0;
                &&& open_elements(evs.take(j)) is Some
                &&& (evs[j] is Start ==> open_elements(evs.take(j + 1)) == Some(
                    st.push(evs[j]->Start_0),
                ) && markup_of(evs[j]) == start_markup(evs[j]->Start_0))
                &&& (evs[j] is End ==> st.len() > 0 && closing_tag(st.last()) == Some(
                    evs[j]->End_0,
                ) && markup_of(evs[j]) == end_markup(closing_tag(st.last())->0)
                    && open_elements(evs.take(j + 1)) == Some(st.drop_last()))
            },
{
    lemma_nested_run(initial_state(), evs);
    assert(Seq::<char>::empty() + markup_concat(evs) =~= markup_concat(evs));
    assert forall|j: int| #![trigger evs[j]] 0 <= j < evs.len() implies {
        let st = open_elements(evs.take(j))->0;
        &&& open_elements(evs.take(j)) is Some
        &&& (evs[j] is Start ==> open_elements(evs.take(j + 1)) == Some(st.push(evs[j]->Start_0))
            && markup_of(evs[j]) == start_markup(evs[j]->Start_0))
        &&& (evs[j] is End ==> st.len() > 0 && closing_tag(st.last()) == Some(evs[j]->End_0)
            && markup_of(evs[j]) == end_markup(closing_tag(st.last())->0)
            && open_elements(evs.take(j + 1)) == Some(st.drop_last()))
    } by {
        lemma_nested_prefix(evs, j + 1);
        lemma_nested_prefix(evs, j);
        let pre = evs.take(j + 1);
        assert(pre.drop_last() =~= evs.take(j));
        assert(pre.last() == evs[j]);
    }
}

/// The opening of a fenced code block whose trimmed language is `lang`: a bare
/// `<pre><code>` for an empty language, else one with the escaped language as
/// a `language-` class.
pub fn fenced_code_open(lang: &str) -> (r: String)
    ensures
        r@ == fenced_open(lang@),
{
    let mut open = String::new();
    if lang.unicode_len() == 0 {
        open.append("<pre><code>");
    } else {
        open.append("<pre><code class=\"language-");
        open.append(escape_html(lang).as_str());
        open.append("\">");
    }
    assert(open@ =~= fenced_open(lang@));
    open
}

/// The renderer of one event stream: the HTML written so far and what is
/// still open.
pub struct Renderer {
    html: String,
    in_code_block: bool,
    pending_image: Option<(String, String)>,
}

impl View for Renderer {
    type V = RenderState;

    closed spec fn view(&self) -> RenderState {
        RenderState {
            html: self.html@,
            in_code_block: self.in_code_block,
            image: match self.pending_image {
                Some((src, alt)) => Some((src@, alt@)),
                None => None,
            },
        }
    }
}

fn heading_open_str(l: HeadingLevel) -> (r: &'static str)
    ensures
        r@ == heading_open(l),
{
    match l {
        HeadingLevel::H1 => "<h1>",
        HeadingLevel::H2 => "<h2>",
        HeadingLevel::H3 => "<h3>",
        HeadingLevel::H4 => "<h4>",
        HeadingLevel::H5 => "<h5>",
        HeadingLevel::H6 => "<h6>",
    }
}

fn heading_close_str(l: HeadingLevel) -> (r: &'static str)
    ensures
        r@ == heading_close(l),
{
    match l {
        HeadingLevel::H1 => "</h1>\n",
        HeadingLevel::H2 => "</h2>\n",
        HeadingLevel::H3 => "</h3>\n",
        HeadingLevel::H4 => "</h4>\n",
        HeadingLevel::H5 => "</h5>\n",
        HeadingLevel::H6 => "</h6>\n",
    }
}

impl Renderer {
    /// A renderer that has seen no event.
    pub fn new() -> (r: Renderer)
        ensures
            r@ == initial_state(),
    {
        Renderer { html: String::new(), in_code_block: false, pending_image: None }
    }

    /// The HTML written so far.
    pub fn finish(self) -> (r: String)
        ensures
            r@ == self@.html,
    {
        self.html
    }

    fn write_escaped(&mut self, text: &str)
        ensures
            final(self)@ == (RenderState { html: old(self)@.html + escape_spec(text@), ..old(self)@ }),
    {
        let e = escape_html(text);
        self.html.append(e.as_str());
    }

    fn image_event(&mut self, event: &Event)
        requires
            old(self)@.image is Some,
        ensures
            ({
                let (src, alt) = old(self)@.image->0;
                final(self)@ == image_step(old(self)@, src, alt, *event)
            }),
    {
        let ghost s = self@;
        match event {
            Event::End(TagEnd::Image) => {
                let (src, alt) = self.pending_image.take().unwrap();
                self.html.append("<img src=\"");
                self.write_escaped(src.as_str());
                self.html.append("\" alt=\"");
                self.write_escaped(alt.as_str());
                self.html.append("\" />");
                assert(self@.html =~= s.html + img_markup(src@, alt@));
            },
            Event::Text(t) | Event::Code(t) => {
                let (src, mut alt) = self.pending_image.take().unwrap();
                alt.append(t.as_str());
                self.pending_image = Some((src, alt));
            },
            Event::SoftBreak | Event::HardBreak => {
                let (src, mut alt) = self.pending_image.take().unwrap();
                let ghost before = alt@;
                alt.append(" ");
                proof {
                    reveal_strlit(" ");
                }
                let ghost a = alt@;
                self.pending_image = Some((src, alt));
                assert(a =~= before.push(' '));
            },
            _ => {},
        }
    }

    fn start_event(&mut self, tag: &Tag)
        requires
            old(self)@.image is None,
        ensures
            final(self)@ == step(old(self)@, Event::Start(*tag)),
    {
        let ghost s = self@;
        match tag {
            Tag::Paragraph => self.html.append("<p>"),
            Tag::Heading(l) => self.html.append(heading_open_str(*l)),
            Tag::BlockQuote => self.html.append("<blockquote>"),
            Tag::CodeBlock(kind) => {
                self.in_code_block = true;
                match kind {
                    CodeBlockKind::Fenced(lang) => {
                        let open = fenced_code_open(trim_str(lang.as_str()));
                        self.html.append(open.as_str());
                    },
                    CodeBlockKind::Indented => self.html.append("<pre><code>"),
                }
            },
            Tag::List => self.html.append("<ul>"),
            Tag::Item => self.html.append("<li>"),
            Tag::Emphasis => self.html.append("<em>"),
            Tag::Strong => self.html.append("<strong>"),
            Tag::Strikethrough => self.html.append("<del>"),
            Tag::Link(dest) => {
                self.html.append("<a href=\"");
                self.write_escaped(dest.as_str());
                self.html.append("\">");
                assert(self@.html =~= s.html + start_markup(*tag));
            },
            Tag::Image(src) => {
                self.pending_image = Some((src.clone(), String::new()));
                assert(self@.html =~= s.html + start_markup(*tag));
            },
            Tag::Table => self.html.append("<table>"),
            Tag::TableHead => self.html.append("<thead>"),
            Tag::TableRow => self.html.append("<tr>"),
            Tag::TableCell => self.html.append("<td>"),
            Tag::FootnoteDefinition(name) => {
                self.html.append("<div id=\"fn-");
                self.write_escaped(name.as_str());
                self.html.append("\">");
                assert(self@.html =~= s.html + start_markup(*tag));
            },
            Tag::Other => {
                assert(self@.html =~= s.html + start_markup(*tag));
            },
        }
    }

    fn end_event(&mut self, tag: &TagEnd)
        requires
            old(self)@.image is None,
        ensures
            final(self)@ == step(old(self)@, Event::End(*tag)),
    {
        let ghost s = self@;
        match tag {
            TagEnd::Paragraph => self.html.append("</p>\n"),
            TagEnd::Heading(l) => self.html.append(heading_close_str(*l)),
            TagEnd::BlockQuote => self.html.append("</blockquote>\n"),
            TagEnd::CodeBlock => {
                self.in_code_block = false;
                self.html.append("</code></pre>\n");
            },
            TagEnd::List => self.html.append("</ul>\n"),
            TagEnd::Item => self.html.append("</li>\n"),
            TagEnd::Emphasis => self.html.append("</em>"),
            TagEnd::Strong => self.html.append("</strong>"),
            TagEnd::Strikethrough => self.html.append("</del>"),
            TagEnd::Link => self.html.append("</a>"),
            TagEnd::Table => self.html.append("</table>\n"),
            TagEnd::TableHead => self.html.append("</thead>"),
            TagEnd::TableRow => self.html.append("</tr>\n"),
            TagEnd::TableCell => self.html.append("</td>"),
            _ => {
                assert(self@.html =~= s.html + end_markup(*tag));
            },
        }
    }

    /// Takes in one event: while an image is open the event only feeds its alt
    /// text or closes it; otherwise it writes its markup.
    pub fn push_event(&mut self, event: &Event)
        ensures
            final(self)@ == step(old(self)@, *event),
    {
        let ghost s = self@;
        if self.pending_image.is_some() {
            self.image_event(event);
            return;
        }
        match event {
            Event::Start(tag) => self.start_event(tag),
            Event::End(tag) => self.end_event(tag),
            Event::Text(t) => self.write_escaped(t.as_str()),
            Event::Code(t) => {
                self.html.append("<code>");
                self.write_escaped(t.as_str());
                self.html.append("</code>");
                assert(self@.html =~= s.html + leaf_markup(*event));
            },
            Event::InlineMath(t) | Event::DisplayMath(t) => {
                self.html.append("$");
                self.write_escaped(t.as_str());
                self.html.append("$");
                assert(self@.html =~= s.html + leaf_markup(*event));
            },
            Event::Html(t) | Event::InlineHtml(t) => self.html.append(t.as_str()),
            Event::FootnoteReference(name) => {
                self.html.append("<a href=\"#fn-");
                self.write_escaped(name.as_str());
                self.html.append("\">[^");
                self.write_escaped(name.as_str());
                self.html.append("]</a>");
                assert(self@.html =~= s.html + leaf_markup(*event));
            },
            Event::SoftBreak => self.html.append(" "),
            Event::HardBreak => self.html.append("<br>\n"),
            Event::Rule => self.html.append("<hr>\n"),
            Event::TaskListMarker(done) => {
                if *done {
                    self.html.append("<input type=\"checkbox\" checked disabled> ");
                } else {
                    self.html.append("<input type=\"checkbox\" disabled> ");
                }
            },
        }
    }
}

/// Renders a whole event stream, one event after the other, into HTML.
pub fn render_events(events: &Vec<Event>) -> (r: String)
    ensures
        r@ == render_spec(events@),
{
    let mut renderer = Renderer::new();
    let mut i: usize = 0;
    while i < events.len()
        invariant
            i <= events@.len(),
            renderer@ == run(initial_state(), events@.subrange(0, i as int)),
        decreases events@.len() - i,
    {
        renderer.push_event(&events[i]);
        proof {
            let next = events@.subrange(0, i + 1);
            assert(next.drop_last() == events@.subrange(0, i as int));
        }
        i += 1;
    }
    proof {
        assert(events@.subrange(0, events@.len() as int) == events@);
    }
    renderer.finish()
}

} // verus!
