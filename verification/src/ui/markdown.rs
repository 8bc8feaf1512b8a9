//! CommonMark laid out for the terminal. Links and HTML remain inert text.
use crate::screen;
use crate::screen::{clusters, glued, graphemes, text_width, texts, Span, TextLine};
use crate::style;
use crate::style::{Color, Style, BOLD, CROSSED_OUT, ITALIC, UNDERLINED};
use crate::text;
use crate::ui::file_diff;
use crate::ui::file_diff::expand_tabs;
use pulldown_cmark::Event as MdEvent;
use pulldown_cmark::Tag as MdTag;
use pulldown_cmark::TagEnd as MdTagEnd;
use pulldown_cmark::{Options, Parser};
use vstd::prelude::*;
use vstd::string::*;

verus! {

/// `pulldown_cmark::Event`, one step through a document.
#[verifier::external_type_specification]
#[verifier::external_body]
pub struct ExEvent<'a>(pulldown_cmark::Event<'a>);

/// `pulldown_cmark::Tag`, the start of a nested element.
#[verifier::external_type_specification]
#[verifier::external_body]
pub struct ExTag<'a>(pulldown_cmark::Tag<'a>);

/// `pulldown_cmark::TagEnd`, the end of a nested element.
#[verifier::external_type_specification]
#[verifier::external_body]
pub struct ExTagEnd(pulldown_cmark::TagEnd);

/// An element that opens.
#[derive(Debug, Clone)]
pub enum Opening {
    Paragraph,
    Heading,
    BlockQuote,
    CodeBlock,
    /// The number of the first item, for a numbered list.
    List(Option<u64>),
    Item,
    TableHead,
    TableRow,
    TableCell,
    Emphasis,
    Strong,
    Strikethrough,
    /// Where it leads.
    Link(String),
    /// Where it is.
    Image(String),
    Other,
}

/// An element that closes.
#[derive(Debug, Clone, Copy, PartialEq, Eq, Structural)]
pub enum Ending {
    Paragraph,
    Heading,
    BlockQuote,
    CodeBlock,
    List,
    Item,
    TableHead,
    TableRow,
    TableCell,
    Link,
    Image,
    Other,
}

/// One step through a document.
#[derive(Debug, Clone)]
pub enum Step {
    Start(Opening),
    End(Ending),
    Text(String),
    Code(String),
    InlineMath(String),
    DisplayMath(String),
    Html(String),
    InlineHtml(String),
    FootnoteReference(String),
    SoftBreak,
    HardBreak,
    Rule,
    TaskListMarker(bool),
}

/// One step through a document, its elements still as the parser gives them.
pub enum Node<'a> {
    Start(pulldown_cmark::Tag<'a>),
    End(pulldown_cmark::TagEnd),
    Text(String),
    Code(String),
    InlineMath(String),
    DisplayMath(String),
    Html(String),
    InlineHtml(String),
    FootnoteReference(String),
    SoftBreak,
    HardBreak,
    Rule,
    TaskListMarker(bool),
}

/// An element that opens, by view.
pub enum TagView {
    Paragraph,
    Heading,
    BlockQuote,
    CodeBlock,
    List(Option<u64>),
    Item,
    TableHead,
    TableRow,
    TableCell,
    Emphasis,
    Strong,
    Strikethrough,
    Link(Seq<char>),
    Image(Seq<char>),
    Other,
}

/// One step through a document, by view.
pub enum Mark {
    Start(TagView),
    End(Ending),
    Text(Seq<char>),
    Code(Seq<char>),
    InlineMath(Seq<char>),
    DisplayMath(Seq<char>),
    Html(Seq<char>),
    InlineHtml(Seq<char>),
    FootnoteReference(Seq<char>),
    SoftBreak,
    HardBreak,
    Rule,
    TaskListMarker(bool),
}

/// Strikethrough, task lists and tables, on top of CommonMark.
pub const OPTIONS: u32 = 0x1a;

/// The steps through a document.
pub uninterp spec fn parsed(source: Seq<char>, options: u32) -> Seq<Mark>;

/// What a step is.
pub uninterp spec fn step_of(event: pulldown_cmark::Event<'_>) -> Mark;

/// The element that opens.
pub uninterp spec fn tag_of(tag: pulldown_cmark::Tag<'_>) -> TagView;

/// The element that closes.
pub uninterp spec fn ending_of(tag: pulldown_cmark::TagEnd) -> Ending;

/// A tag, by view.
pub open spec fn tag_view(t: Opening) -> TagView {
    match t {
        Opening::Paragraph => TagView::Paragraph,
        Opening::Heading => TagView::Heading,
        Opening::BlockQuote => TagView::BlockQuote,
        Opening::CodeBlock => TagView::CodeBlock,
        Opening::List(n) => TagView::List(n),
        Opening::Item => TagView::Item,
        Opening::TableHead => TagView::TableHead,
        Opening::TableRow => TagView::TableRow,
        Opening::TableCell => TagView::TableCell,
        Opening::Emphasis => TagView::Emphasis,
        Opening::Strong => TagView::Strong,
        Opening::Strikethrough => TagView::Strikethrough,
        Opening::Link(url) => TagView::Link(url@),
        Opening::Image(url) => TagView::Image(url@),
        Opening::Other => TagView::Other,
    }
}

/// A step, by view.
pub open spec fn mark_of(e: Step) -> Mark {
    match e {
        Step::Start(t) => Mark::Start(tag_view(t)),
        Step::End(t) => Mark::End(t),
        Step::Text(s) => Mark::Text(s@),
        Step::Code(s) => Mark::Code(s@),
        Step::InlineMath(s) => Mark::InlineMath(s@),
        Step::DisplayMath(s) => Mark::DisplayMath(s@),
        Step::Html(s) => Mark::Html(s@),
        Step::InlineHtml(s) => Mark::InlineHtml(s@),
        Step::FootnoteReference(s) => Mark::FootnoteReference(s@),
        Step::SoftBreak => Mark::SoftBreak,
        Step::HardBreak => Mark::HardBreak,
        Step::Rule => Mark::Rule,
        Step::TaskListMarker(done) => Mark::TaskListMarker(done),
    }
}

/// The steps, by view.
pub open spec fn marks_of(events: Seq<Step>) -> Seq<Mark> {
    events.map_values(|e: Step| mark_of(e))
}

/// A step as the parser gives it, by view.
pub open spec fn node_mark(n: Node<'_>) -> Mark {
    match n {
        Node::Start(t) => Mark::Start(tag_of(t)),
        Node::End(t) => Mark::End(ending_of(t)),
        Node::Text(s) => Mark::Text(s@),
        Node::Code(s) => Mark::Code(s@),
        Node::InlineMath(s) => Mark::InlineMath(s@),
        Node::DisplayMath(s) => Mark::DisplayMath(s@),
        Node::Html(s) => Mark::Html(s@),
        Node::InlineHtml(s) => Mark::InlineHtml(s@),
        Node::FootnoteReference(s) => Mark::FootnoteReference(s@),
        Node::SoftBreak => Mark::SoftBreak,
        Node::HardBreak => Mark::HardBreak,
        Node::Rule => Mark::Rule,
        Node::TaskListMarker(done) => Mark::TaskListMarker(done),
    }
}

/// `pulldown_cmark::Parser::new_ext`: walks a document to its end. Named
/// `parsed`.
#[verifier::external_body]
fn parse<'a>(source: &'a str, options: u32) -> (r: Vec<MdEvent<'a>>)
    ensures
        r@.map_values(|e: MdEvent<'a>| step_of(e)) == parsed(source@, options),
{
    Parser::new_ext(source, Options::from_bits_truncate(options)).collect()
}

/// `pulldown_cmark::Event`: tells the steps apart, and takes their texts out.
/// Named `step_of`.
#[verifier::external_body]
fn open_event<'a>(event: MdEvent<'a>) -> (r: Node<'a>)
    ensures
        node_mark(r) == step_of(event),
{
    match event {
        MdEvent::Start(t) => Node::Start(t), MdEvent::End(t) => Node::End(t),
        MdEvent::Text(t) => Node::Text(t.into_string()), MdEvent::Code(t) => Node::Code(t.into_string()),
        MdEvent::InlineMath(t) => Node::InlineMath(t.into_string()),
        MdEvent::DisplayMath(t) => Node::DisplayMath(t.into_string()),
        MdEvent::Html(t) => Node::Html(t.into_string()), MdEvent::InlineHtml(t) => Node::InlineHtml(t.into_string()),
        MdEvent::FootnoteReference(t) => Node::FootnoteReference(t.into_string()),
        MdEvent::SoftBreak => Node::SoftBreak, MdEvent::HardBreak => Node::HardBreak,
        MdEvent::Rule => Node::Rule, MdEvent::TaskListMarker(b) => Node::TaskListMarker(b),
    }
}

/// `pulldown_cmark::Tag`: tells the elements apart that are laid out differently.
/// Named `tag_of`.
#[verifier::external_body]
fn open_tag(tag: MdTag<'_>) -> (r: Opening)
    ensures
        tag_view(r) == tag_of(tag),
{
    match tag {
        MdTag::Paragraph => Opening::Paragraph, MdTag::Heading { .. } => Opening::Heading,
        MdTag::BlockQuote(_) => Opening::BlockQuote, MdTag::CodeBlock(_) => Opening::CodeBlock,
        MdTag::List(n) => Opening::List(n), MdTag::Item => Opening::Item,
        MdTag::TableHead => Opening::TableHead, MdTag::TableRow => Opening::TableRow,
        MdTag::TableCell => Opening::TableCell, MdTag::Emphasis => Opening::Emphasis,
        MdTag::Strong => Opening::Strong, MdTag::Strikethrough => Opening::Strikethrough,
        MdTag::Link { dest_url, .. } => Opening::Link(dest_url.into_string()),
        MdTag::Image { dest_url, .. } => Opening::Image(dest_url.into_string()),
        _ => Opening::Other,
    }
}

/// `pulldown_cmark::TagEnd`: tells the ends apart that are laid out differently.
/// Named `ending_of`.
#[verifier::external_body]
fn open_ending(tag: MdTagEnd) -> (r: Ending)
    ensures
        r == ending_of(tag),
{
    match tag {
        MdTagEnd::Paragraph => Ending::Paragraph, MdTagEnd::Heading(_) => Ending::Heading,
        MdTagEnd::BlockQuote(_) => Ending::BlockQuote, MdTagEnd::CodeBlock => Ending::CodeBlock,
        MdTagEnd::List(_) => Ending::List, MdTagEnd::Item => Ending::Item,
        MdTagEnd::TableHead => Ending::TableHead, MdTagEnd::TableRow => Ending::TableRow,
        MdTagEnd::TableCell => Ending::TableCell, MdTagEnd::Link => Ending::Link,
        MdTagEnd::Image => Ending::Image,
        _ => Ending::Other,
    }
}

/// Whether a character may be shown: no control character but a line feed and a
/// tab, and none that changes the direction of the text around it.
pub open spec fn is_safe(c: char) -> bool {
    let control = c < '\u{20}' || '\u{7f}' <= c <= '\u{9f}';
    (!control || c == '\n' || c == '\t') && !('\u{202a}' <= c <= '\u{202e}') && !('\u{2066}' <= c
        <= '\u{2069}')
}

/// `s` without what may not be shown.
pub open spec fn safe_text(s: Seq<char>) -> Seq<char> {
    s.filter(|c: char| is_safe(c))
}

pub proof fn lemma_all_safe(s: Seq<char>)
    requires
        forall|i: int| 0 <= i < s.len() ==> is_safe(#[trigger] s[i]),
    ensures
        safe_text(s) == s,
    decreases s.len(),
{
    reveal(Seq::filter);
    if s.len() > 0 {
        lemma_all_safe(s.drop_last());
        assert(is_safe(s[s.len() - 1]));
        assert(s.drop_last().push(s.last()) =~= s);
    }
}

/// Law: what was made safe stays as it is when it is made safe again, and texts
/// can be made safe apart or together.
pub proof fn law_safe_text(a: Seq<char>, b: Seq<char>)
    ensures
        safe_text(safe_text(a)) == safe_text(a),
        safe_text(a + b) == safe_text(a) + safe_text(b),
{
    let f = |c: char| is_safe(c);
    assert forall|i: int| 0 <= i < safe_text(a).len() implies is_safe(
        #[trigger] safe_text(a)[i],
    ) by {
        a.lemma_filter_pred(f, i);
    }
    lemma_all_safe(safe_text(a));
    Seq::filter_distributes_over_add(a, b, f);
}

/// `s` without what may not be shown.
pub fn safe(s: &str) -> (r: String)
    ensures
        r@ == safe_text(s@),
{
    let chars = text::chars_of(s);
    let mut out = String::new();
    let mut i: usize = 0;
    let ghost f = |c: char| is_safe(c);
    proof {
        assert(s@.take(0).filter(f) =~= Seq::<char>::empty()) by {
            reveal(Seq::filter);
        }
    }
    while i < chars.len()
        invariant
            i <= chars.len(),
            chars@ == s@,
            f == (|c: char| is_safe(c)),
            out@ == s@.take(i as int).filter(f),
        decreases chars.len() - i,
    {
        let c: char = chars[i];
        proof {
            reveal(Seq::filter);
            assert(s@.take(i + 1).drop_last() =~= s@.take(i as int));
            assert(s@.take(i + 1).last() == c);
        }
        let control = c < '\u{20}' || ('\u{7f}' <= c && c <= '\u{9f}');
        let turns = ('\u{202a}' <= c && c <= '\u{202e}') || ('\u{2066}' <= c && c <= '\u{2069}');
        if (!control || c == '\n' || c == '\t') && !turns {
            out.push(c);
        }
        i += 1;
    }
    assert(s@.take(i as int) =~= s@);
    out
}

/// A text's parts between line feeds: one more than there are line feeds.
pub open spec fn parts(s: Seq<char>) -> Seq<Seq<char>>
    decreases s.len(),
{
    if s.len() == 0 {
        seq![Seq::empty()]
    } else if s.last() == '\n' {
        parts(s.drop_last()).push(Seq::empty())
    } else {
        let front = parts(s.drop_last());
        front.drop_last().push(front.last().push(s.last()))
    }
}

/// A page as it is laid out: the rows done, the row under way, and what is open
/// around it.
pub struct Page {
    pub rows: Seq<Seq<(Style, Seq<char>)>>,
    pub spans: Seq<(Style, Seq<char>)>,
    pub styles: Seq<Style>,
    pub style: Style,
    pub lists: Seq<Option<u64>>,
    pub links: Seq<Seq<char>>,
    pub quote: nat,
    pub code: bool,
}

/// The style of code.
pub open spec fn code_style(s: Style) -> Style {
    s.with_fg(Color::Yellow).with_bg(Color::Rgb(35, 40, 48))
}

/// The number after `n`, as far as 64 bits go.
pub open spec fn number_after(n: u64) -> u64 {
    if n == u64::MAX {
        n
    } else {
        (n + 1) as u64
    }
}

impl Page {
    /// An empty page.
    pub open spec fn empty() -> Page {
        Page {
            rows: Seq::empty(),
            spans: Seq::empty(),
            styles: Seq::empty(),
            style: style::plain(),
            lists: Seq::empty(),
            links: Seq::empty(),
            quote: 0,
            code: false,
        }
    }

    /// The row under way ended; where it is empty, only if `force`.
    pub open spec fn flushed(self, force: bool) -> Page {
        if force || self.spans.len() > 0 {
            Page { rows: self.rows.push(self.spans), spans: Seq::empty(), ..self }
        } else {
            self
        }
    }

    /// The row under way ended and followed by an empty one, unless there is
    /// nothing above it or an empty row already.
    pub open spec fn blanked(self) -> Page {
        let f = self.flushed(false);
        if f.rows.len() > 0 && f.rows.last().len() > 0 {
            Page { rows: f.rows.push(Seq::empty()), ..f }
        } else {
            f
        }
    }

    /// Text without line feeds added to the row under way, behind the quote's
    /// bars where it begins a row.
    pub open spec fn with_part(self, part: Seq<char>) -> Page {
        if part.len() == 0 {
            self
        } else {
            let front = if self.spans.len() == 0 && self.quote > 0 {
                self.spans.push(
                    (
                        style::plain().with_fg(Color::DarkGray),
                        text::times("│ "@, self.quote),
                    ),
                )
            } else {
                self.spans
            };
            Page { spans: front.push((self.style, part)), ..self }
        }
    }

    /// Parts added, each with a row ended behind it.
    pub open spec fn lined(self, p: Seq<Seq<char>>) -> Page
        decreases p.len(),
    {
        if p.len() == 0 {
            self
        } else {
            self.lined(p.drop_last()).with_part(p.last()).flushed(true)
        }
    }

    /// Text added.
    pub open spec fn texted(self, s: Seq<char>) -> Page {
        let p = parts(safe_text(s));
        self.lined(p.drop_last()).with_part(p.last())
    }

    /// What an item begins with.
    pub open spec fn bullet(self) -> Seq<char> {
        match self.lists.last() {
            Some(n) if self.lists.len() > 0 => text::decimal_text(n as nat) + ". "@,
            _ => "• "@,
        }
    }

    /// The page with its innermost list at the next number.
    pub open spec fn counted(self) -> Page {
        if self.lists.len() > 0 {
            match self.lists.last() {
                Some(n) => Page {
                    lists: self.lists.update(self.lists.len() - 1, Some(number_after(n))),
                    ..self
                },
                None => self,
            }
        } else {
            self
        }
    }

    /// The columns an item is indented by, as blanks.
    pub open spec fn indent(self) -> Seq<char> {
        text::times(
            "  "@,
            if self.lists.len() > 0 {
                (self.lists.len() - 1) as nat
            } else {
                0
            },
        )
    }

    /// An element opened.
    pub open spec fn started(self, tag: TagView) -> Page {
        let p = Page { styles: self.styles.push(self.style), ..self };
        match tag {
            TagView::Heading => Page {
                style: p.style.with_fg(Color::Cyan).with_modifier(BOLD),
                ..p.blanked()
            },
            TagView::Strong => Page { style: p.style.with_modifier(BOLD), ..p },
            TagView::Emphasis => Page { style: p.style.with_modifier(ITALIC), ..p },
            TagView::Strikethrough => Page { style: p.style.with_modifier(CROSSED_OUT), ..p },
            TagView::CodeBlock => Page {
                code: true,
                style: code_style(p.style),
                ..p.blanked()
            },
            TagView::BlockQuote => Page {
                quote: p.quote + 1,
                style: p.style.with_fg(Color::Gray),
                ..p.blanked()
            },
            TagView::List(start) => Page { lists: p.lists.push(start), ..p.flushed(false) },
            TagView::Item => {
                let f = p.flushed(false);
                f.counted().texted(f.indent() + f.bullet())
            },
            TagView::Link(url) => Page {
                links: p.links.push(url),
                style: p.style.with_fg(Color::Blue).with_modifier(UNDERLINED),
                ..p
            },
            TagView::Image(url) => Page {
                links: p.links.push(url),
                style: p.style.with_fg(Color::Blue).with_modifier(UNDERLINED),
                ..p
            },
            TagView::TableHead => p.flushed(false),
            TagView::TableRow => p.flushed(false),
            TagView::TableCell => p.texted("│ "@),
            TagView::Paragraph => p,
            TagView::Other => p,
        }
    }

    /// What closing an element leaves on the page.
    pub open spec fn closed_by(self, tag: Ending) -> Page {
        match tag {
            Ending::Heading => self.blanked(),
            Ending::Paragraph => self.blanked(),
            Ending::CodeBlock => Page { code: false, ..self }.blanked(),
            Ending::BlockQuote => Page {
                quote: if self.quote > 0 {
                    (self.quote - 1) as nat
                } else {
                    0
                },
                ..self.flushed(false)
            },
            Ending::Item => self.flushed(false),
            Ending::List => Page {
                lists: if self.lists.len() > 0 {
                    self.lists.drop_last()
                } else {
                    self.lists
                },
                ..self
            }.blanked(),
            Ending::Link => self.linked(),
            Ending::Image => self.linked(),
            Ending::TableHead => self.flushed(false),
            Ending::TableRow => self.flushed(false),
            Ending::TableCell => self.texted(" "@),
            Ending::Other => self,
        }
    }

    /// The innermost link's address written behind its text.
    pub open spec fn linked(self) -> Page {
        if self.links.len() > 0 {
            Page { links: self.links.drop_last(), ..self }.texted(
                " ("@ + self.links.last() + ")"@,
            )
        } else {
            self
        }
    }

    /// An element closed: what it leaves on the page, and the style it was
    /// opened in.
    pub open spec fn ended(self, tag: Ending) -> Page {
        let p = self.closed_by(tag);
        if p.styles.len() > 0 {
            Page { style: p.styles.last(), styles: p.styles.drop_last(), ..p }
        } else {
            Page { style: style::plain(), ..p }
        }
    }

    /// One step taken.
    pub open spec fn stepped(self, mark: Mark) -> Page {
        match mark {
            Mark::Start(tag) => self.started(tag),
            Mark::End(tag) => self.ended(tag),
            Mark::Text(s) => self.texted(s),
            Mark::Html(s) => self.texted(s),
            Mark::InlineHtml(s) => self.texted(s),
            Mark::Code(s) => Page {
                style: self.style,
                ..Page { style: code_style(self.style), ..self }.texted(s)
            },
            Mark::SoftBreak => if self.code {
                self.flushed(true)
            } else {
                self.texted(" "@)
            },
            Mark::HardBreak => self.flushed(true),
            Mark::Rule => self.blanked().texted("────────"@).blanked(),
            Mark::TaskListMarker(done) => self.texted(
                if done {
                    "[x] "@
                } else {
                    "[ ] "@
                },
            ),
            Mark::FootnoteReference(s) => self.texted("["@ + s + "]"@),
            Mark::InlineMath(s) => self.texted(s),
            Mark::DisplayMath(s) => self.texted(s),
        }
    }
}

/// The page after the first `n` steps.
pub open spec fn page_after(marks: Seq<Mark>, n: int) -> Page
    decreases n,
{
    if n <= 0 {
        Page::empty()
    } else {
        page_after(marks, n - 1).stepped(marks[n - 1])
    }
}

/// Rows without the empty ones at the end.
pub open spec fn without_blank_end(
    rows: Seq<Seq<(Style, Seq<char>)>>,
) -> Seq<Seq<(Style, Seq<char>)>>
    decreases rows.len(),
{
    if rows.len() > 0 && rows.last().len() == 0 {
        without_blank_end(rows.drop_last())
    } else {
        rows
    }
}

/// A document's rows.
pub open spec fn composed(marks: Seq<Mark>) -> Seq<Seq<(Style, Seq<char>)>> {
    without_blank_end(page_after(marks, marks.len() as int).flushed(false).rows)
}

/// Lays a document out, step by step.
struct Builder {
    rows: Vec<TextLine>,
    spans: Vec<Span>,
    styles: Vec<Style>,
    style: Style,
    lists: Vec<Option<u64>>,
    links: Vec<String>,
    quote: usize,
    code: bool,
}

proof fn lemma_line_push(v: Seq<Span>, s: Span)
    ensures
        screen::line_view(v.push(s)) == screen::line_view(v).push((s.style, s.text@)),
{
    assert(screen::line_view(v.push(s)) =~= screen::line_view(v).push((s.style, s.text@)));
}

proof fn lemma_lines_push(v: Seq<TextLine>, l: TextLine)
    ensures
        screen::lines_view(v.push(l)) == screen::lines_view(v).push(screen::line_view(l.spans@)),
{
    assert(screen::lines_view(v.push(l)) =~= screen::lines_view(v).push(
        screen::line_view(l.spans@),
    ));
}

impl Builder {
    spec fn page(&self) -> Page {
        Page {
            rows: screen::lines_view(self.rows@),
            spans: screen::line_view(self.spans@),
            styles: self.styles@,
            style: self.style,
            lists: self.lists@,
            links: texts(self.links@),
            quote: self.quote as nat,
            code: self.code,
        }
    }

    fn new() -> (r: Self)
        ensures
            r.page() == Page::empty(),
    {
        let b = Builder {
            rows: Vec::new(),
            spans: Vec::new(),
            styles: Vec::new(),
            style: Style::default(),
            lists: Vec::new(),
            links: Vec::new(),
            quote: 0,
            code: false,
        };
        proof {
            assert(b.page().rows =~= Page::empty().rows);
            assert(b.page().spans =~= Page::empty().spans);
            assert(b.page().styles =~= Page::empty().styles);
            assert(b.page().lists =~= Page::empty().lists);
            assert(b.page().links =~= Page::empty().links);
        }
        b
    }

    fn flush(&mut self, force: bool)
        ensures
            final(self).page() == old(self).page().flushed(force),
    {
        if force || self.spans.len() > 0 {
            let mut done: Vec<Span> = Vec::new();
            std::mem::swap(&mut done, &mut self.spans);
            let line = TextLine { spans: done };
            proof {
                lemma_lines_push(self.rows@, line);
                assert(screen::line_view(self.spans@) =~= Seq::<(Style, Seq<char>)>::empty());
            }
            self.rows.push(line);
        }
    }

    fn blank(&mut self)
        ensures
            final(self).page() == old(self).page().blanked(),
    {
        self.flush(false);
        let n: usize = self.rows.len();
        if n > 0 && self.rows[n - 1].spans.len() > 0 {
            let line = TextLine { spans: Vec::new() };
            proof {
                lemma_lines_push(self.rows@, line);
                assert(screen::line_view(line.spans@) =~= Seq::<(Style, Seq<char>)>::empty());
            }
            self.rows.push(line);
        }
    }

    fn add_part(&mut self, part: String)
        ensures
            final(self).page() == old(self).page().with_part(part@),
    {
        if part.as_str().is_empty() {
            proof {
                assert(part@.len() == 0);
            }
            return ;
        }
        if self.spans.len() == 0 && self.quote > 0 {
            let bars = Span {
                style: Style::default().fg(Color::DarkGray),
                text: text::repeat_text("│ ", self.quote),
            };
            proof {
                lemma_line_push(self.spans@, bars);
            }
            self.spans.push(bars);
        }
        let span = Span { style: self.style, text: part };
        proof {
            lemma_line_push(self.spans@, span);
        }
        self.spans.push(span);
    }

    fn add_text(&mut self, s: &str)
        ensures
            final(self).page() == old(self).page().texted(s@),
    {
        let shown = safe(s);
        let chars = text::chars_of(shown.as_str());
        let ghost all = shown@;
        let mut part = String::new();
        let mut i: usize = 0;
        proof {
            assert(all.take(0) =~= Seq::<char>::empty());
            assert(parts(all.take(0)).drop_last() =~= Seq::<Seq<char>>::empty());
            assert(part@ =~= parts(all.take(0)).last());
        }
        while i < chars.len()
            invariant
                i <= chars.len(),
                chars@ == all,
                parts(all.take(i as int)).len() > 0,
                part@ == parts(all.take(i as int)).last(),
                self.page() == old(self).page().lined(parts(all.take(i as int)).drop_last()),
            decreases chars.len() - i,
        {
            let c: char = chars[i];
            let ghost p = parts(all.take(i as int));
            let ghost q = parts(all.take(i + 1));
            proof {
                assert(all.take(i + 1).drop_last() =~= all.take(i as int));
                assert(all.take(i + 1).last() == c);
                if c == '\n' {
                    assert(q.drop_last() =~= p);
                    assert(q.last() =~= Seq::<char>::empty());
                } else {
                    assert(q.drop_last() =~= p.drop_last());
                    assert(q.last() == p.last().push(c));
                }
            }
            if c == '\n' {
                let mut done = String::new();
                std::mem::swap(&mut done, &mut part);
                self.add_part(done);
                self.flush(true);
                assert(part@ =~= Seq::<char>::empty());
            } else {
                part.push(c);
            }
            i += 1;
        }
        assert(all.take(i as int) =~= all);
        self.add_part(part);
    }

    fn start_item(&mut self)
        ensures
            final(self).page() == ({
                let f = old(self).page().flushed(false);
                f.counted().texted(f.indent() + f.bullet())
            }),
    {
        self.flush(false);
        let ghost f = self.page();
        let n: usize = self.lists.len();
        let indent = text::repeat_text(
            "  ",
            if n > 0 {
                n - 1
            } else {
                0
            },
        );
        let bullet = if n > 0 {
            match self.lists[n - 1] {
                Some(number) => {
                    let digits = text::decimal(number);
                    self.lists.set(n - 1, Some(number.saturating_add(1)));
                    text::join2(digits.as_str(), ". ")
                },
                None => "• ".to_owned(),
            }
        } else {
            "• ".to_owned()
        };
        proof {
            assert(self.page() == f.counted());
            assert(bullet@ == f.bullet());
        }
        let front = text::join2(indent.as_str(), bullet.as_str());
        self.add_text(front.as_str());
    }

    fn open_link(&mut self, url: &String)
        ensures
            final(self).page() == (Page {
                links: old(self).page().links.push(url@),
                style: old(self).page().style.with_fg(Color::Blue).with_modifier(UNDERLINED),
                ..old(self).page()
            }),
    {
        let ghost before = self.links@;
        self.links.push(url.clone());
        proof {
            assert(texts(self.links@) =~= texts(before).push(url@));
        }
        self.style = self.style.fg(Color::Blue).add_modifier(UNDERLINED);
    }

    fn start(&mut self, tag: &Opening)
        requires
            old(self).quote < usize::MAX,
        ensures
            final(self).page() == old(self).page().started(tag_view(*tag)),
            final(self).quote <= old(self).quote + 1,
    {
        self.styles.push(self.style);
        match tag {
            Opening::Heading => {
                self.blank();
                self.style = self.style.fg(Color::Cyan).add_modifier(BOLD);
            },
            Opening::Strong => {
                self.style = self.style.add_modifier(BOLD);
            },
            Opening::Emphasis => {
                self.style = self.style.add_modifier(ITALIC);
            },
            Opening::Strikethrough => {
                self.style = self.style.add_modifier(CROSSED_OUT);
            },
            Opening::CodeBlock => {
                self.blank();
                self.code = true;
                self.style = self.style.fg(Color::Yellow).bg(Color::Rgb(35, 40, 48));
            },
            Opening::BlockQuote => {
                self.blank();
                self.quote = self.quote + 1;
                self.style = self.style.fg(Color::Gray);
            },
            Opening::List(start) => {
                self.flush(false);
                self.lists.push(*start);
            },
            Opening::Item => {
                self.start_item();
            },
            Opening::Link(url) => {
                self.open_link(url);
            },
            Opening::Image(url) => {
                self.open_link(url);
            },
            Opening::TableHead => {
                self.flush(false);
            },
            Opening::TableRow => {
                self.flush(false);
            },
            Opening::TableCell => {
                self.add_text("│ ");
            },
            Opening::Paragraph => {},
            Opening::Other => {},
        }
        proof {
            lemma_quote_kept(old(self).page(), tag_view(*tag));
        }
    }

    fn close_link(&mut self)
        ensures
            final(self).page() == old(self).page().linked(),
    {
        let ghost before = self.links@;
        if let Some(url) = self.links.pop() {
            proof {
                assert(texts(self.links@) =~= texts(before).drop_last());
                assert(url@ == texts(before).last());
            }
            let behind = text::join3(" (", url.as_str(), ")");
            self.add_text(behind.as_str());
        }
    }

    fn end(&mut self, tag: Ending)
        ensures
            final(self).page() == old(self).page().ended(tag),
    {
        match tag {
            Ending::Heading => {
                self.blank();
            },
            Ending::Paragraph => {
                self.blank();
            },
            Ending::CodeBlock => {
                self.code = false;
                self.blank();
            },
            Ending::BlockQuote => {
                self.flush(false);
                self.quote = self.quote.saturating_sub(1);
            },
            Ending::Item => {
                self.flush(false);
            },
            Ending::List => {
                self.lists.pop();
                self.blank();
            },
            Ending::Link => {
                self.close_link();
            },
            Ending::Image => {
                self.close_link();
            },
            Ending::TableHead => {
                self.flush(false);
            },
            Ending::TableRow => {
                self.flush(false);
            },
            Ending::TableCell => {
                self.add_text(" ");
            },
            Ending::Other => {},
        }
        self.style = match self.styles.pop() {
            Some(s) => s,
            None => Style::default(),
        };
    }

    fn step(&mut self, event: &Step)
        requires
            old(self).quote < usize::MAX,
        ensures
            final(self).page() == old(self).page().stepped(mark_of(*event)),
            final(self).quote <= old(self).quote + 1,
    {
        match event {
            Step::Start(tag) => {
                self.start(tag);
            },
            Step::End(tag) => {
                self.end(*tag);
            },
            Step::Text(s) => {
                self.add_text(s.as_str());
            },
            Step::Html(s) => {
                self.add_text(s.as_str());
            },
            Step::InlineHtml(s) => {
                self.add_text(s.as_str());
            },
            Step::Code(s) => {
                let saved = self.style;
                self.style = saved.fg(Color::Yellow).bg(Color::Rgb(35, 40, 48));
                self.add_text(s.as_str());
                self.style = saved;
            },
            Step::SoftBreak => {
                if self.code {
                    self.flush(true);
                } else {
                    self.add_text(" ");
                }
            },
            Step::HardBreak => {
                self.flush(true);
            },
            Step::Rule => {
                self.blank();
                self.add_text("────────");
                self.blank();
            },
            Step::TaskListMarker(done) => {
                if *done {
                    self.add_text("[x] ");
                } else {
                    self.add_text("[ ] ");
                }
            },
            Step::FootnoteReference(s) => {
                let shown = text::join3("[", s.as_str(), "]");
                self.add_text(shown.as_str());
            },
            Step::InlineMath(s) => {
                self.add_text(s.as_str());
            },
            Step::DisplayMath(s) => {
                self.add_text(s.as_str());
            },
        }
        proof {
            lemma_quote_step(old(self).page(), mark_of(*event));
        }
    }
}

proof fn lemma_lined_quote(p: Page, q: Seq<Seq<char>>)
    ensures
        p.lined(q).quote == p.quote,
    decreases q.len(),
{
    if q.len() > 0 {
        lemma_lined_quote(p, q.drop_last());
    }
}

proof fn lemma_texted_quote(p: Page, s: Seq<char>)
    ensures
        p.texted(s).quote == p.quote,
{
    lemma_lined_quote(p, parts(safe_text(s)).drop_last());
}

proof fn lemma_quote_kept(p: Page, tag: TagView)
    ensures
        p.started(tag).quote <= p.quote + 1,
{
    let q = Page { styles: p.styles.push(p.style), ..p };
    let f = q.flushed(false);
    lemma_texted_quote(f.counted(), f.indent() + f.bullet());
    lemma_texted_quote(q, "│ "@);
}

proof fn lemma_quote_step(p: Page, mark: Mark)
    ensures
        p.stepped(mark).quote <= p.quote + 1,
{
    match mark {
        Mark::Start(tag) => {
            lemma_quote_kept(p, tag);
        },
        Mark::End(tag) => {
            let q = Page { links: p.links.drop_last(), ..p };
            lemma_texted_quote(q, " ("@ + p.links.last() + ")"@);
            lemma_texted_quote(p, " "@);
        },
        Mark::Code(s) => {
            lemma_texted_quote(Page { style: code_style(p.style), ..p }, s);
        },
        Mark::Rule => {
            lemma_texted_quote(p.blanked(), "────────"@);
        },
        Mark::Text(s) => {
            lemma_texted_quote(p, s);
        },
        Mark::Html(s) => {
            lemma_texted_quote(p, s);
        },
        Mark::InlineHtml(s) => {
            lemma_texted_quote(p, s);
        },
        Mark::InlineMath(s) => {
            lemma_texted_quote(p, s);
        },
        Mark::DisplayMath(s) => {
            lemma_texted_quote(p, s);
        },
        Mark::SoftBreak => {
            lemma_texted_quote(p, " "@);
        },
        Mark::TaskListMarker(_) => {
            lemma_texted_quote(p, "[x] "@);
            lemma_texted_quote(p, "[ ] "@);
        },
        Mark::FootnoteReference(s) => {
            lemma_texted_quote(p, "["@ + s + "]"@);
        },
        Mark::HardBreak => {},
    }
}

/// The rows of a document, given the steps through it.
pub fn compose(events: &Vec<Step>) -> (r: Vec<TextLine>)
    ensures
        screen::lines_view(r@) == composed(marks_of(events@)),
{
    let mut b = Builder::new();
    let mut i: usize = 0;
    while i < events.len()
        invariant
            i <= events.len(),
            b.quote <= i,
            b.page() == page_after(marks_of(events@), i as int),
        decreases events.len() - i,
    {
        b.step(&events[i]);
        i += 1;
    }
    b.flush(false);
    let ghost all = b.page().rows;
    let mut rows = b.rows;
    while rows.len() > 0 && rows[rows.len() - 1].spans.len() == 0
        invariant
            without_blank_end(screen::lines_view(rows@)) == without_blank_end(all),
        decreases rows.len(),
    {
        let ghost before = rows@;
        rows.pop();
        proof {
            assert(screen::lines_view(rows@) =~= screen::lines_view(before).drop_last());
        }
    }
    rows
}

/// Tells a step's element apart.
fn open_node(node: Node<'_>) -> (r: Step)
    ensures
        mark_of(r) == node_mark(node),
{
    match node {
        Node::Start(t) => Step::Start(open_tag(t)),
        Node::End(t) => Step::End(open_ending(t)),
        Node::Text(s) => Step::Text(s),
        Node::Code(s) => Step::Code(s),
        Node::InlineMath(s) => Step::InlineMath(s),
        Node::DisplayMath(s) => Step::DisplayMath(s),
        Node::Html(s) => Step::Html(s),
        Node::InlineHtml(s) => Step::InlineHtml(s),
        Node::FootnoteReference(s) => Step::FootnoteReference(s),
        Node::SoftBreak => Step::SoftBreak,
        Node::HardBreak => Step::HardBreak,
        Node::Rule => Step::Rule,
        Node::TaskListMarker(done) => Step::TaskListMarker(done),
    }
}

/// The rows of a document.
pub fn lines(source: &str) -> (r: Vec<TextLine>)
    ensures
        screen::lines_view(r@) == composed(parsed(source@, OPTIONS)),
{
    let steps = parse(source, OPTIONS);
    let ghost all = steps@;
    let mut events: Vec<Step> = Vec::new();
    for step in it: steps
        invariant
            it.seq() == all,
            events@.len() == it.index(),
            forall|k: int| 0 <= k < it.index() ==> mark_of(#[trigger] events@[k]) == step_of(all[k]),
    {
        events.push(open_node(open_event(step)));
    }
    assert(marks_of(events@) =~= parsed(source@, OPTIONS));
    compose(&events)
}

/// A row's pieces, or what is left to be placed.
pub type Pieces = Seq<(Style, Seq<char>)>;

/// Texts in one style.
pub open spec fn styled(v: Seq<Seq<char>>, style: Style) -> Pieces {
    v.map_values(|s: Seq<char>| (style, s))
}

/// The clusters of a row's first `n` spans: what may not be shown is left out,
/// and tabs become blanks.
pub open spec fn cut(spans: Pieces, n: int) -> Pieces
    decreases n,
{
    if n <= 0 {
        Seq::empty()
    } else {
        cut(spans, n - 1) + styled(
            clusters(shown_text(spans[n - 1].1)),
            spans[n - 1].0,
        )
    }
}

/// The text of a span as it is shown: without what may not be shown, and with
/// blanks for tabs.
pub open spec fn shown_text(s: Seq<char>) -> Seq<char> {
    file_diff::untabbed(safe_text(s))
}

/// Whether the clusters of every span's text are together that text.
pub open spec fn all_in_clusters(spans: Pieces) -> bool {
    forall|j: int|
        0 <= j < spans.len() ==> glued(clusters(shown_text(#[trigger] spans[j].1))) == shown_text(
            spans[j].1,
        )
}

/// The text of pieces.
pub open spec fn plain(row: Pieces) -> Seq<char>
    decreases row.len(),
{
    if row.len() == 0 {
        Seq::empty()
    } else {
        plain(row.drop_last()) + row.last().1
    }
}

/// The text of the first `n` spans as it is shown.
pub open spec fn plain_shown(spans: Pieces, n: int) -> Seq<char>
    decreases n,
{
    if n <= 0 {
        Seq::empty()
    } else {
        plain_shown(spans, n - 1) + shown_text(spans[n - 1].1)
    }
}

/// Rows of pieces, and the row under way with the columns it takes.
pub struct Laid {
    pub rows: Seq<Pieces>,
    pub row: Pieces,
    pub col: nat,
}

/// A piece as it is shown: an ellipsis where it is wider than the whole row.
pub open spec fn shown_as(piece: (Style, Seq<char>), width: nat) -> (Style, Seq<char>) {
    if screen::text_columns(piece.1) > width {
        (piece.0, seq!['…'])
    } else {
        piece
    }
}

/// One more piece placed: on the row under way, or on a new one where that row
/// has something on it and no room for the piece.
pub open spec fn placed(l: Laid, piece: (Style, Seq<char>), width: nat) -> Laid {
    let turned = if l.col + screen::text_columns(piece.1) > width && l.row.len() > 0 {
        Laid { rows: l.rows.push(l.row), row: Seq::empty(), col: 0 }
    } else {
        l
    };
    let shown = shown_as(piece, width);
    Laid {
        row: turned.row.push(shown),
        col: turned.col + screen::text_columns(shown.1) as nat,
        ..turned
    }
}

/// The first `n` pieces placed.
pub open spec fn laid(pieces: Pieces, width: nat, n: int) -> Laid
    decreases n,
{
    if n <= 0 {
        Laid { rows: Seq::empty(), row: Seq::empty(), col: 0 }
    } else {
        placed(laid(pieces, width, n - 1), pieces[n - 1], width)
    }
}

/// A row with neighbouring pieces of one style joined.
pub open spec fn joined(row: Pieces) -> Pieces
    decreases row.len(),
{
    if row.len() == 0 {
        row
    } else {
        let front = joined(row.drop_last());
        let piece = row.last();
        if front.len() > 0 && front.last().0 == piece.0 {
            front.update(front.len() - 1, (piece.0, front.last().1 + piece.1))
        } else {
            front.push(piece)
        }
    }
}

/// Rows with neighbouring pieces of one style joined.
pub open spec fn all_joined(rows: Seq<Pieces>) -> Seq<Pieces> {
    rows.map_values(|row: Pieces| joined(row))
}

/// A line wrapped to rows of at most `width` columns.
pub open spec fn wrapped_line(spans: Pieces, width: nat) -> Seq<Pieces> {
    let pieces = cut(spans, spans.len() as int);
    let l = laid(pieces, width, pieces.len() as int);
    all_joined(l.rows.push(l.row))
}

/// The first `n` lines wrapped.
pub open spec fn wrapped(lines: Seq<Pieces>, width: nat, n: int) -> Seq<Pieces>
    decreases n,
{
    if n <= 0 {
        Seq::empty()
    } else {
        wrapped(lines, width, n - 1) + wrapped_line(lines[n - 1], width)
    }
}

/// The columns of a row, piece by piece.
pub open spec fn columns(row: Pieces) -> nat
    decreases row.len(),
{
    if row.len() == 0 {
        0
    } else {
        columns(row.drop_last()) + screen::text_columns(row.last().1) as nat
    }
}

/// Rows one behind the other.
pub open spec fn flattened(rows: Seq<Pieces>) -> Pieces
    decreases rows.len(),
{
    if rows.len() == 0 {
        Seq::empty()
    } else {
        flattened(rows.drop_last()) + rows.last()
    }
}

/// Law: no row is wider than it may be, given that an ellipsis fits.
pub proof fn law_rows_fit(pieces: Pieces, width: nat, n: int)
    requires
        n <= pieces.len(),
    ensures
        screen::text_columns(seq!['…']) <= width ==> {
            let l = laid(pieces, width, n);
            &&& columns(l.row) == l.col
            &&& l.col <= width
            &&& forall|i: int| 0 <= i < l.rows.len() ==> columns(#[trigger] l.rows[i]) <= width
        },
    decreases n,
{
    if n > 0 && screen::text_columns(seq!['…']) <= width {
        law_rows_fit(pieces, width, n - 1);
        let before = laid(pieces, width, n - 1);
        let after = laid(pieces, width, n);
        let piece = pieces[n - 1];
        assert(columns(Seq::empty()) == 0);
        if before.row.len() == 0 {
            assert(before.row =~= Seq::empty());
        }
        if before.col + screen::text_columns(piece.1) > width && before.row.len() > 0 {
            assert(after.row.drop_last() =~= Seq::empty());
        } else {
            assert(after.row.drop_last() =~= before.row);
        }
    }
}

/// Law: wrapping keeps every piece, in order.
pub proof fn law_nothing_lost(pieces: Pieces, width: nat, n: int)
    requires
        0 <= n <= pieces.len(),
    ensures
        flattened(laid(pieces, width, n).rows.push(laid(pieces, width, n).row)) == pieces.take(
            n,
        ).map_values(|p: (Style, Seq<char>)| shown_as(p, width)),
    decreases n,
{
    let f = |p: (Style, Seq<char>)| shown_as(p, width);
    let after = laid(pieces, width, n);
    assert(after.rows.push(after.row).drop_last() =~= after.rows);
    if n > 0 {
        law_nothing_lost(pieces, width, n - 1);
        let before = laid(pieces, width, n - 1);
        let piece = pieces[n - 1];
        assert(before.rows.push(before.row).drop_last() =~= before.rows);
        assert(pieces.take(n).map_values(f) =~= pieces.take(n - 1).map_values(f).push(
            shown_as(piece, width),
        ));
        if before.col + screen::text_columns(piece.1) > width && before.row.len() > 0 {
            assert(after.rows.drop_last() =~= before.rows);
            assert(flattened(after.rows.push(after.row)) =~= flattened(
                before.rows.push(before.row),
            ).push(shown_as(piece, width)));
        } else {
            assert(flattened(after.rows.push(after.row)) =~= flattened(
                before.rows.push(before.row),
            ).push(shown_as(piece, width)));
        }
    } else {
        assert(after.rows.len() == 0);
        assert(flattened(after.rows) =~= Seq::empty());
        assert(flattened(after.rows.push(after.row)) =~= pieces.take(n).map_values(f));
    }
}

proof fn lemma_plain_add(a: Pieces, b: Pieces)
    ensures
        plain(a + b) == plain(a) + plain(b),
    decreases b.len(),
{
    if b.len() == 0 {
        assert(a + b =~= a);
        assert(plain(a) + plain(b) =~= plain(a));
    } else {
        lemma_plain_add(a, b.drop_last());
        assert((a + b).drop_last() =~= a + b.drop_last());
        assert(plain(a + b) =~= plain(a) + plain(b));
    }
}

proof fn lemma_plain_styled(v: Seq<Seq<char>>, style: Style)
    ensures
        plain(styled(v, style)) == glued(v),
    decreases v.len(),
{
    if v.len() > 0 {
        lemma_plain_styled(v.drop_last(), style);
        assert(styled(v, style).drop_last() =~= styled(v.drop_last(), style));
    }
}

proof fn lemma_plain_cut(spans: Pieces, n: int)
    requires
        n <= spans.len(),
        all_in_clusters(spans),
    ensures
        plain(cut(spans, n)) == plain_shown(spans, n),
    decreases n,
{
    if n > 0 {
        lemma_plain_cut(spans, n - 1);
        let parts = clusters(shown_text(spans[n - 1].1));
        lemma_plain_styled(parts, spans[n - 1].0);
        lemma_plain_add(cut(spans, n - 1), styled(parts, spans[n - 1].0));
    }
}

proof fn lemma_plain_joined(row: Pieces)
    ensures
        plain(joined(row)) == plain(row),
    decreases row.len(),
{
    if row.len() > 0 {
        lemma_plain_joined(row.drop_last());
        let front = joined(row.drop_last());
        let piece = row.last();
        if front.len() > 0 && front.last().0 == piece.0 {
            assert(joined(row).drop_last() =~= front.drop_last());
            assert(plain(joined(row)) =~= plain(row));
        } else {
            assert(joined(row).drop_last() =~= front);
        }
    }
}

proof fn lemma_plain_all_joined(rows: Seq<Pieces>)
    ensures
        plain(flattened(all_joined(rows))) == plain(flattened(rows)),
    decreases rows.len(),
{
    if rows.len() > 0 {
        lemma_plain_all_joined(rows.drop_last());
        assert(all_joined(rows).drop_last() =~= all_joined(rows.drop_last()));
        lemma_plain_joined(rows.last());
        lemma_plain_add(flattened(rows.drop_last()), rows.last());
        lemma_plain_add(flattened(all_joined(rows.drop_last())), joined(rows.last()));
    }
}

/// Law: wrapping keeps the text. Where no cluster is wider than a row, the rows of
/// a line are together the text of the line as it is shown.
pub proof fn law_wrapping_keeps_the_text(spans: Pieces, width: nat)
    requires
        all_in_clusters(spans),
        forall|i: int|
            0 <= i < cut(spans, spans.len() as int).len() ==> screen::text_columns(
                #[trigger] cut(spans, spans.len() as int)[i].1,
            ) <= width,
    ensures
        plain(flattened(wrapped_line(spans, width))) == plain_shown(spans, spans.len() as int),
{
    let pieces = cut(spans, spans.len() as int);
    let l = laid(pieces, width, pieces.len() as int);
    law_nothing_lost(pieces, width, pieces.len() as int);
    assert(pieces.take(pieces.len() as int).map_values(
        |p: (Style, Seq<char>)| shown_as(p, width),
    ) =~= pieces);
    lemma_plain_all_joined(l.rows.push(l.row));
    lemma_plain_cut(spans, spans.len() as int);
}

proof fn lemma_joined_empty(row: Pieces)
    ensures
        joined(row).len() == 0 <==> row.len() == 0,
{
}

/// A row under way.
struct Wrapping {
    out: Vec<TextLine>,
    spans: Vec<Span>,
    col: usize,
}

impl Wrapping {
    /// Whether this is `l`, behind the rows `done`.
    spec fn shows(&self, done: Seq<Pieces>, l: Laid) -> bool {
        &&& screen::lines_view(self.out@) == done + all_joined(l.rows)
        &&& screen::line_view(self.spans@) == joined(l.row)
        &&& self.col == l.col
    }

    /// Ends the row under way.
    fn turn(&mut self)
        ensures
            screen::lines_view(final(self).out@) == screen::lines_view(old(self).out@).push(
                screen::line_view(old(self).spans@),
            ),
            final(self).spans@.len() == 0,
            final(self).col == 0,
    {
        let mut row: Vec<Span> = Vec::new();
        std::mem::swap(&mut row, &mut self.spans);
        let line = TextLine { spans: row };
        proof {
            lemma_lines_push(self.out@, line);
        }
        self.out.push(line);
        self.col = 0;
    }

    /// Adds a piece to the row under way.
    fn add_piece(&mut self, style: Style, piece: &str)
        requires
            old(self).col <= 0x2_0000,
            screen::text_columns(piece@) <= 0x1_0000,
        ensures
            final(self).out == old(self).out,
            final(self).col == old(self).col + screen::text_columns(piece@),
            forall|row: Pieces|
                screen::line_view(old(self).spans@) == #[trigger] joined(row) ==> screen::line_view(
                    final(self).spans@,
                ) == joined(row.push((style, piece@))),
    {
        let n: usize = self.spans.len();
        let ghost before = self.spans@;
        let merge = n > 0 && self.spans[n - 1].style == style;
        if merge {
            if let Some(mut last) = self.spans.pop() {
                last.text.append(piece);
                self.spans.push(last);
            }
        } else {
            let span = Span { style, text: piece.to_owned() };
            self.spans.push(span);
        }
        self.col = self.col + text_width(piece);
        proof {
            let old_view = screen::line_view(before);
            let new_view = screen::line_view(self.spans@);
            if merge {
                assert(new_view =~= old_view.update(
                    n - 1,
                    (style, old_view.last().1 + piece@),
                ));
            } else {
                assert(new_view =~= old_view.push((style, piece@)));
            }
            assert forall|row: Pieces|
                old_view == #[trigger] joined(row) implies new_view == joined(
                row.push((style, piece@)),
            ) by {
                assert(row.push((style, piece@)).drop_last() =~= row);
                if n > 0 {
                    assert(old_view.last() == (before[n - 1].style, before[n - 1].text@));
                }
            }
        }
    }

    /// Places one cluster.
    fn place(&mut self, style: Style, piece: &str, width: u16, Ghost(done): Ghost<Seq<Pieces>>, Ghost(l): Ghost<Laid>)
        requires
            old(self).shows(done, l),
            l.row.len() == 0 ==> l.col == 0,
            l.col <= 0x1_0000,
            width > 0,
        ensures
            final(self).shows(done, placed(l, (style, piece@), width as nat)),
            placed(l, (style, piece@), width as nat).col <= 0x1_0000,
    {
        let size: usize = text_width(piece);
        let wide: usize = width as usize;
        proof {
            lemma_joined_empty(l.row);
        }
        let full = self.col > wide || size > wide - self.col;
        let ghost turned = if l.col + size > width && l.row.len() > 0 {
            Laid { rows: l.rows.push(l.row), row: Seq::empty(), col: 0 }
        } else {
            l
        };
        if full && self.spans.len() > 0 {
            self.turn();
            proof {
                assert(all_joined(turned.rows) =~= all_joined(l.rows).push(joined(l.row)));
                assert(done + all_joined(turned.rows) =~= (done + all_joined(l.rows)).push(
                    joined(l.row),
                ));
                assert(screen::line_view(self.spans@) =~= joined(turned.row));
            }
        }
        assert(self.shows(done, turned));
        if size > wide {
            let _dots: usize = text_width("…");
            proof {
                reveal_strlit("…");
                assert("…"@ =~= seq!['…']);
            }
            self.add_piece(style, "…");
        } else {
            self.add_piece(style, piece);
        }
    }
}

/// Wraps one line.
fn wrap_line(out: Vec<TextLine>, line: &TextLine, width: u16) -> (r: Vec<TextLine>)
    requires
        width > 0,
    ensures
        screen::lines_view(r@) == screen::lines_view(out@) + wrapped_line(
            screen::line_view(line.spans@),
            width as nat,
        ),
        all_in_clusters(screen::line_view(line.spans@)),
{
    let ghost done = screen::lines_view(out@);
    let ghost spans = screen::line_view(line.spans@);
    let ghost w = width as nat;
    let mut at = Wrapping { out, spans: Vec::new(), col: 0 };
    let ghost pieces: Pieces = Seq::empty();
    proof {
        assert(all_joined(laid(pieces, w, 0).rows) =~= Seq::<Pieces>::empty());
        assert(done + Seq::<Pieces>::empty() =~= done);
        assert(screen::line_view(at.spans@) =~= joined(laid(pieces, w, 0).row));
    }
    let mut i: usize = 0;
    while i < line.spans.len()
        invariant
            i <= line.spans.len(),
            width > 0,
            w == width,
            spans == screen::line_view(line.spans@),
            pieces == cut(spans, i as int),
            forall|j: int|
                0 <= j < i ==> glued(clusters(shown_text(#[trigger] spans[j].1))) == shown_text(
                    spans[j].1,
                ),
            at.shows(done, laid(pieces, w, pieces.len() as int)),
            laid(pieces, w, pieces.len() as int).row.len() == 0 ==> laid(
                pieces,
                w,
                pieces.len() as int,
            ).col == 0,
            laid(pieces, w, pieces.len() as int).col <= 0x1_0000,
        decreases line.spans.len() - i,
    {
        let span = &line.spans[i];
        let clean = safe(span.text.as_str());
        let content = expand_tabs(clean.as_str());
        let parts = graphemes(content.as_str());
        let ghost whole = cut(spans, i + 1);
        let ghost start = pieces.len();
        proof {
            assert(spans[i as int] == (span.style, span.text@));
            assert(whole =~= pieces + styled(texts(parts@), span.style));
            lemma_laid_prefix(pieces, whole, w, start as int);
        }
        let mut k: usize = 0;
        while k < parts.len()
            invariant
                k <= parts.len(),
                width > 0,
                w == width,
                whole == cut(spans, i + 1),
                whole == pieces + styled(texts(parts@), span.style),
                start == pieces.len(),
                at.shows(done, laid(whole, w, start + k)),
                laid(whole, w, start + k).row.len() == 0 ==> laid(whole, w, start + k).col == 0,
                laid(whole, w, start + k).col <= 0x1_0000,
            decreases parts.len() - k,
        {
            proof {
                assert(whole[start + k] == (span.style, parts@[k as int]@)) by {
                    assert(styled(texts(parts@), span.style)[k as int] == (
                        span.style,
                        texts(parts@)[k as int],
                    ));
                }
            }
            at.place(
                span.style,
                parts[k].as_str(),
                width,
                Ghost(done),
                Ghost(laid(whole, w, start + k)),
            );
            k += 1;
        }
        proof {
            pieces = whole;
        }
        i += 1;
    }
    let ghost l = laid(pieces, w, pieces.len() as int);
    at.turn();
    proof {
        assert(all_joined(l.rows.push(l.row)) =~= all_joined(l.rows).push(joined(l.row)));
        assert(done + all_joined(l.rows.push(l.row)) =~= (done + all_joined(l.rows)).push(
            joined(l.row),
        ));
    }
    at.out
}

proof fn lemma_laid_prefix(a: Pieces, b: Pieces, width: nat, n: int)
    requires
        n <= a.len() <= b.len(),
        forall|i: int| 0 <= i < a.len() ==> a[i] == b[i],
    ensures
        laid(a, width, n) == laid(b, width, n),
    decreases n,
{
    if n > 0 {
        lemma_laid_prefix(a, b, width, n - 1);
    }
}

/// The rows lines take once wrapped to `width` columns; none where there is no
/// column to write in.
pub open spec fn rows_of(lines: Seq<Pieces>, width: u16) -> Seq<Pieces> {
    if width == 0 {
        Seq::empty()
    } else {
        wrapped(lines, width as nat, lines.len() as int)
    }
}

/// Wraps lines by grapheme cluster and column, keeping their styles.
pub fn wrap(lines: &Vec<TextLine>, width: u16) -> (r: Vec<TextLine>)
    ensures
        screen::lines_view(r@) == rows_of(screen::lines_view(lines@), width),
        width > 0 ==> forall|i: int|
            0 <= i < lines@.len() ==> all_in_clusters(
                screen::line_view((#[trigger] lines@[i]).spans@),
            ),
{
    let mut out: Vec<TextLine> = Vec::new();
    proof {
        assert(screen::lines_view(out@) =~= Seq::<Pieces>::empty());
    }
    if width == 0 {
        return out;
    }
    let mut i: usize = 0;
    while i < lines.len()
        invariant
            i <= lines.len(),
            width > 0,
            screen::lines_view(out@) == wrapped(screen::lines_view(lines@), width as nat, i as int),
            forall|k: int|
                0 <= k < i ==> all_in_clusters(screen::line_view((#[trigger] lines@[k]).spans@)),
        decreases lines.len() - i,
    {
        out = wrap_line(out, &lines[i], width);
        i += 1;
    }
    out
}

} // verus!
