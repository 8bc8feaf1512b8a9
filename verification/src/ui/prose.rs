//! What a laid out document reads like: all of its text, in order, in the style it
//! is marked with, and its blocks apart from each other.
use crate::style;
use crate::style::{Color, Style, BOLD, CROSSED_OUT, ITALIC, UNDERLINED};
use crate::text;
use crate::ui::markdown;
use crate::ui::markdown::{composed, Ending, Mark, Page, Pieces, TagView};
use vstd::prelude::*;
use vstd::string::*;

verus! {

/// The text of rows, each ended by a line feed.
pub open spec fn ended(rows: Seq<Pieces>) -> Seq<char>
    decreases rows.len(),
{
    if rows.len() == 0 {
        Seq::empty()
    } else {
        ended(rows.drop_last()) + markdown::plain(rows.last()).push('\n')
    }
}

/// What is on a page so far.
pub open spec fn written(p: Page) -> Seq<char> {
    ended(p.rows) + markdown::plain(p.spans)
}

/// Whether every character of a text is shown, on the same row.
pub open spec fn clear(s: Seq<char>) -> bool {
    forall|i: int| 0 <= i < s.len() ==> #[trigger] s[i] != '\n' && markdown::is_safe(s[i])
}

/// Whether a text is shown as it is, on one row.
pub open spec fn simple(s: Seq<char>) -> bool {
    s.len() > 0 && clear(s)
}

proof fn lemma_clear_add(a: Seq<char>, b: Seq<char>)
    requires
        clear(a),
        clear(b),
    ensures
        clear(a + b),
{
    assert forall|i: int| 0 <= i < (a + b).len() implies #[trigger] (a + b)[i] != '\n'
        && markdown::is_safe((a + b)[i]) by {
        if i < a.len() {
            assert(a[i] != '\n' && markdown::is_safe(a[i]));
        } else {
            assert(b[i - a.len()] != '\n' && markdown::is_safe(b[i - a.len()]));
        }
    }
}

proof fn lemma_brackets()
    ensures
        " ("@ == seq![' ', '('],
        ")"@ == seq![')'],
        "["@ == seq!['['],
        "]"@ == seq![']'],
        "[x] "@ == seq!['[', 'x', ']', ' '],
        "[ ] "@ == seq!['[', ' ', ']', ' '],
        clear(" ("@),
        clear(")"@),
        clear("["@),
        clear("]"@),
        clear("[x] "@),
        clear("[ ] "@),
{
    reveal_strlit(" (");
    reveal_strlit(")");
    reveal_strlit("[");
    reveal_strlit("]");
    reveal_strlit("[x] ");
    reveal_strlit("[ ] ");
    assert(" ("@ =~= seq![' ', '(']);
    assert(")"@ =~= seq![')']);
    assert("["@ =~= seq!['[']);
    assert("]"@ =~= seq![']']);
    assert("[x] "@ =~= seq!['[', 'x', ']', ' ']);
    assert("[ ] "@ =~= seq!['[', ' ', ']', ' ']);
}

/// Whether two pages differ in what is written on them alone.
pub open spec fn same_around(p: Page, q: Page) -> bool {
    &&& p.styles == q.styles
    &&& p.style == q.style
    &&& p.lists == q.lists
    &&& p.links == q.links
    &&& p.quote == q.quote
    &&& p.code == q.code
}

/// Parts, each ended by a line feed.
spec fn terminated(parts: Seq<Seq<char>>) -> Seq<char>
    decreases parts.len(),
{
    if parts.len() == 0 {
        Seq::empty()
    } else {
        terminated(parts.drop_last()) + parts.last().push('\n')
    }
}

proof fn lemma_parts_join(s: Seq<char>)
    ensures
        markdown::parts(s).len() > 0,
        terminated(markdown::parts(s).drop_last()) + markdown::parts(s).last() == s,
    decreases s.len(),
{
    let p = markdown::parts(s);
    if s.len() == 0 {
        assert(p.drop_last() =~= Seq::empty());
        assert(terminated(p.drop_last()) + p.last() =~= s);
    } else {
        let front = markdown::parts(s.drop_last());
        lemma_parts_join(s.drop_last());
        if s.last() == '\n' {
            assert(p.drop_last() =~= front);
            assert(terminated(front) == terminated(front.drop_last()) + front.last().push('\n'));
            assert(terminated(front) =~= s.drop_last().push('\n'));
            assert(terminated(front) + Seq::<char>::empty() =~= s);
        } else {
            assert(p.drop_last() =~= front.drop_last());
            assert(p.last() == front.last().push(s.last()));
            assert(terminated(front.drop_last()) + front.last().push(s.last()) =~= (terminated(
                front.drop_last(),
            ) + front.last()).push(s.last()));
            assert(s.drop_last().push(s.last()) =~= s);
        }
    }
}

proof fn lemma_one_part(s: Seq<char>)
    requires
        forall|i: int| 0 <= i < s.len() ==> #[trigger] s[i] != '\n',
    ensures
        markdown::parts(s) == seq![s],
    decreases s.len(),
{
    if s.len() == 0 {
        assert(s =~= Seq::<char>::empty());
    } else {
        let front = s.drop_last();
        assert forall|i: int| 0 <= i < front.len() implies #[trigger] front[i] != '\n' by {
            assert(s[i] != '\n');
        }
        lemma_one_part(front);
        assert(s[s.len() - 1] != '\n');
        assert(front.push(s.last()) =~= s);
        let some = markdown::parts(front);
        assert(some.drop_last() =~= Seq::<Seq<char>>::empty());
        assert(some.last() == front);
        assert(markdown::parts(s) == some.drop_last().push(some.last().push(s.last())));
        assert(markdown::parts(s) =~= seq![s]);
    }
}

proof fn lemma_part(p: Page, part: Seq<char>)
    ensures
        same_around(p, p.with_part(part)),
        p.with_part(part).rows == p.rows,
        p.quote == 0 || p.spans.len() > 0 ==> written(p.with_part(part)) == written(p) + part,
        part.len() > 0 ==> p.with_part(part).spans.len() > 0,
        part.len() > 0 ==> p.with_part(part).spans.last() == (p.style, part),
{
    let q = p.with_part(part);
    if p.quote == 0 || p.spans.len() > 0 {
        if part.len() > 0 {
            assert(q.spans.drop_last() =~= p.spans);
        }
        assert(written(q) =~= written(p) + part);
    }
}

proof fn lemma_flush(p: Page)
    ensures
        same_around(p, p.flushed(true)),
        written(p.flushed(true)) == written(p).push('\n'),
        p.flushed(true).spans.len() == 0,
        same_around(p, p.flushed(false)),
        p.flushed(false).spans.len() == 0,
        p.spans.len() > 0 ==> written(p.flushed(false)) == written(p).push('\n'),
        p.spans.len() == 0 ==> p.flushed(false) == p,
{
    let q = p.flushed(true);
    assert(q.rows.drop_last() =~= p.rows);
    assert(written(q) =~= written(p).push('\n'));
}

proof fn lemma_lined(p: Page, parts: Seq<Seq<char>>)
    requires
        p.quote == 0,
    ensures
        same_around(p, p.lined(parts)),
        written(p.lined(parts)) == written(p) + terminated(parts),
    decreases parts.len(),
{
    if parts.len() == 0 {
        assert(written(p) + terminated(parts) =~= written(p));
    } else {
        let front = p.lined(parts.drop_last());
        lemma_lined(p, parts.drop_last());
        lemma_part(front, parts.last());
        lemma_flush(front.with_part(parts.last()));
        assert(written(p.lined(parts)) =~= written(p) + terminated(parts));
    }
}

proof fn lemma_lined_around(p: Page, parts: Seq<Seq<char>>)
    ensures
        same_around(p, p.lined(parts)),
    decreases parts.len(),
{
    if parts.len() > 0 {
        lemma_lined_around(p, parts.drop_last());
    }
}

proof fn lemma_texted(p: Page, s: Seq<char>)
    ensures
        same_around(p, p.texted(s)),
        p.quote == 0 ==> written(p.texted(s)) == written(p) + markdown::safe_text(s),
{
    let t = markdown::safe_text(s);
    let parts = markdown::parts(t);
    lemma_parts_join(t);
    lemma_lined_around(p, parts.drop_last());
    lemma_part(p.lined(parts.drop_last()), parts.last());
    if p.quote == 0 {
        lemma_lined(p, parts.drop_last());
        assert(written(p.texted(s)) =~= written(p) + t);
    }
}

proof fn lemma_simple(p: Page, s: Seq<char>)
    requires
        simple(s),
    ensures
        p.texted(s) == p.with_part(s),
        same_around(p, p.texted(s)),
        p.texted(s).rows == p.rows,
        p.texted(s).spans.len() > 0,
        p.texted(s).spans.last() == (p.style, s),
        p.quote == 0 || p.spans.len() > 0 ==> written(p.texted(s)) == written(p) + s,
{
    markdown::lemma_all_safe(s);
    lemma_one_part(s);
    assert(seq![s].drop_last() =~= Seq::<Seq<char>>::empty());
    assert(p.lined(seq![s].drop_last()) == p);
    lemma_part(p, s);
}

/// Law: text is shown as it stands, whatever kind of text it is: behind what is on
/// the page already, without what may not be shown, and with a new row for each
/// line feed.
pub proof fn law_text_is_written(p: Page, s: Seq<char>)
    requires
        p.quote == 0,
    ensures
        written(p.stepped(Mark::Text(s))) == written(p) + markdown::safe_text(s),
        written(p.stepped(Mark::Html(s))) == written(p) + markdown::safe_text(s),
        written(p.stepped(Mark::InlineHtml(s))) == written(p) + markdown::safe_text(s),
        written(p.stepped(Mark::InlineMath(s))) == written(p) + markdown::safe_text(s),
        written(p.stepped(Mark::DisplayMath(s))) == written(p) + markdown::safe_text(s),
        written(p.stepped(Mark::Code(s))) == written(p) + markdown::safe_text(s),
{
    lemma_texted(p, s);
    let q = Page { style: markdown::code_style(p.style), ..p };
    lemma_texted(q, s);
    assert(written(q) == written(p));
    assert(written(p.stepped(Mark::Code(s))) == written(q.texted(s)));
}

/// Law: text is shown in the style that is set, and changes neither that style nor
/// anything else that is open. Code is shown in the style of code, and the style is
/// as before behind it.
pub proof fn law_text_has_its_style(p: Page, s: Seq<char>)
    requires
        simple(s),
    ensures
        p.stepped(Mark::Text(s)).spans.last() == (p.style, s),
        p.stepped(Mark::Text(s)).rows == p.rows,
        same_around(p, p.stepped(Mark::Text(s))),
        same_around(p, p.stepped(Mark::Code(s))),
        p.stepped(Mark::Code(s)).rows == p.rows,
        ({
            let (shown, code) = p.stepped(Mark::Code(s)).spans.last();
            &&& code == s
            &&& shown.fg == Some(Color::Yellow)
            &&& shown.bg == Some(Color::Rgb(35, 40, 48))
            &&& shown.add_modifier == p.style.add_modifier
        }),
{
    lemma_simple(p, s);
    lemma_simple(Page { style: markdown::code_style(p.style), ..p }, s);
}

proof fn lemma_plain_none(row: Pieces)
    requires
        row.len() == 0,
    ensures
        markdown::plain(row) == Seq::<char>::empty(),
{
}

proof fn lemma_plain_one(piece: (Style, Seq<char>))
    ensures
        markdown::plain(seq![piece]) == piece.1,
{
    assert(seq![piece].drop_last() =~= Seq::<(Style, Seq<char>)>::empty());
    lemma_plain_none(seq![piece].drop_last());
    assert(markdown::plain(seq![piece]) =~= piece.1);
}

/// Law: a quoted row begins with a bar for each quote it stands in, and only the
/// first text on a row gets them.
pub proof fn law_quoted_rows_have_bars(p: Page, s: Seq<char>)
    requires
        simple(s),
        p.quote > 0,
    ensures
        p.spans.len() == 0 ==> written(p.stepped(Mark::Text(s))) == written(p) + text::times(
            "│ "@,
            p.quote,
        ) + s,
        p.spans.len() > 0 ==> written(p.stepped(Mark::Text(s))) == written(p) + s,
{
    lemma_simple(p, s);
    let q = p.texted(s);
    if p.spans.len() == 0 {
        let bars = (style::plain().with_fg(Color::DarkGray), text::times("│ "@, p.quote));
        assert(q.spans =~= seq![bars, (p.style, s)]);
        assert(q.spans.drop_last() =~= seq![bars]);
        lemma_plain_one(bars);
        lemma_plain_none(p.spans);
        assert(markdown::plain(q.spans) == markdown::plain(seq![bars]) + s);
        assert(written(q) =~= written(p) + text::times("│ "@, p.quote) + s);
    }
}

proof fn lemma_blank()
    ensures
        simple(" "@),
        " "@ == seq![' '],
{
    reveal_strlit(" ");
    assert(" "@ =~= seq![' ']);
}

/// Law: a soft line break outside of code is one blank between the text before it
/// and the text behind it, on one row. In code, and wherever the break is hard, the
/// text behind it stands on a new row.
pub proof fn law_line_breaks(p: Page, a: Seq<char>, b: Seq<char>)
    requires
        simple(a),
        simple(b),
    ensures
        ({
            let first = p.stepped(Mark::Text(a));
            let soft = first.stepped(Mark::SoftBreak).stepped(Mark::Text(b));
            let hard = first.stepped(Mark::HardBreak);
            &&& !p.code ==> written(soft) == written(first) + seq![' '] + b && soft.rows
                == p.rows
            &&& p.code ==> first.stepped(Mark::SoftBreak) == hard
            &&& written(hard) == written(first).push('\n')
            &&& hard.rows == p.rows.push(first.spans) && hard.spans.len() == 0
            &&& same_around(p, hard)
        }),
{
    lemma_blank();
    lemma_simple(p, a);
    let first = p.texted(a);
    lemma_simple(first, " "@);
    lemma_simple(first.texted(" "@), b);
    lemma_flush(first);
}

/// Law: a paragraph of two lines in the source is one row, its two lines with one
/// blank between them.
pub proof fn law_paragraph(a: Seq<char>, b: Seq<char>)
    requires
        simple(a),
        simple(b),
    ensures
        ({
            let rows = composed(
                seq![
                    Mark::Start(TagView::Paragraph),
                    Mark::Text(a),
                    Mark::SoftBreak,
                    Mark::Text(b),
                    Mark::End(Ending::Paragraph),
                ],
            );
            rows.len() == 1 && markdown::plain(rows[0]) == a + seq![' '] + b
        }),
{
    let marks = seq![
        Mark::Start(TagView::Paragraph),
        Mark::Text(a),
        Mark::SoftBreak,
        Mark::Text(b),
        Mark::End(Ending::Paragraph),
    ];
    reveal(page);
    lemma_paragraph_page(marks, a, b);
    law_document_ends_with_text(marks);
    let rows = composed(marks);
    let p = markdown::page_after(marks, marks.len() as int);
    assert(p == page(marks, 5));
    let all = rows_on(p);
    assert(all == p.rows);
    if rows.len() == 2 {
        assert(rows.last() == all[1]);
    }
    if rows.len() == 0 {
        assert(all[0].len() == 0);
    }
    assert(rows[0] == all[0]);
}

/// The page after so many steps.
#[verifier::opaque]
spec fn page(marks: Seq<Mark>, n: int) -> Page {
    markdown::page_after(marks, n)
}

proof fn lemma_paragraph_page(marks: Seq<Mark>, a: Seq<char>, b: Seq<char>)
    requires
        simple(a),
        simple(b),
        marks == seq![
            Mark::Start(TagView::Paragraph),
            Mark::Text(a),
            Mark::SoftBreak,
            Mark::Text(b),
            Mark::End(Ending::Paragraph),
        ],
    ensures
        page(marks, 5).rows.len() == 2,
        page(marks, 5).spans.len() == 0,
        page(marks, 5).rows[0].len() > 0,
        page(marks, 5).rows[1].len() == 0,
        markdown::plain(page(marks, 5).rows[0]) == a + seq![' '] + b,
{
    lemma_step(marks, 0);
    lemma_step(marks, 1);
    lemma_step(marks, 2);
    lemma_step(marks, 3);
    lemma_step(marks, 4);
    lemma_paragraph_rows(
        page(marks, 0),
        page(marks, 1),
        page(marks, 2),
        page(marks, 3),
        page(marks, 4),
        page(marks, 5),
        a,
        b,
    );
}

/// A page after one more step.
#[verifier::opaque]
spec fn then(p: Page, mark: Mark) -> Page {
    p.stepped(mark)
}

proof fn lemma_step(marks: Seq<Mark>, k: int)
    requires
        0 <= k < marks.len(),
    ensures
        page(marks, 0) == Page::empty(),
        page(marks, k + 1) == then(page(marks, k), marks[k]),
{
    reveal(then);
    reveal(page);
}

proof fn lemma_paragraph_rows(
    p0: Page,
    p1: Page,
    p2: Page,
    p3: Page,
    p4: Page,
    p5: Page,
    a: Seq<char>,
    b: Seq<char>,
)
    requires
        simple(a),
        simple(b),
        p0 == Page::empty(),
        p1 == then(p0, Mark::Start(TagView::Paragraph)),
        p2 == then(p1, Mark::Text(a)),
        p3 == then(p2, Mark::SoftBreak),
        p4 == then(p3, Mark::Text(b)),
        p5 == then(p4, Mark::End(Ending::Paragraph)),
    ensures
        p5.rows.len() == 2,
        p5.spans.len() == 0,
        p5.rows[0].len() > 0,
        p5.rows[1].len() == 0,
        markdown::plain(p5.rows[0]) == a + seq![' '] + b,
{
    reveal(then);
    law_line_breaks(p1, a, b);
    lemma_simple(p1, a);
    lemma_plain_none(p1.spans);
    assert(ended(p1.rows) =~= Seq::<char>::empty());
    assert(written(p1) =~= Seq::<char>::empty());
    assert(written(p2) =~= a);
    assert(written(p4) =~= a + seq![' '] + b);
    assert(markdown::plain(p4.spans) =~= a + seq![' '] + b);
    if p4.spans.len() == 0 {
        lemma_plain_none(p4.spans);
    }
    law_blocks_stand_apart(p4, Mark::End(Ending::Paragraph));
}

/// Law: an element gives its text the style it stands for, on top of the style
/// around it: a heading is cyan and bold, strong text bold, emphasised text italic,
/// struck text crossed out, a quote gray, a link or image blue and underlined, and
/// code has colours of its own. Other elements change no style.
#[verifier::spinoff_prover]
#[verifier::rlimit(60)]
pub proof fn law_elements_set_the_style(p: Page, tag: TagView)
    ensures
        ({
            let (was, now) = (p.style, p.stepped(Mark::Start(tag)).style);
            let mods = was.add_modifier;
            match tag {
                TagView::Heading => now == Style {
                    fg: Some(Color::Cyan),
                    bg: was.bg,
                    add_modifier: mods | BOLD,
                },
                TagView::Strong => now == Style { fg: was.fg, bg: was.bg, add_modifier: mods | BOLD },
                TagView::Emphasis => now == Style {
                    fg: was.fg,
                    bg: was.bg,
                    add_modifier: mods | ITALIC,
                },
                TagView::Strikethrough => now == Style {
                    fg: was.fg,
                    bg: was.bg,
                    add_modifier: mods | CROSSED_OUT,
                },
                TagView::CodeBlock => now == Style {
                    fg: Some(Color::Yellow),
                    bg: Some(Color::Rgb(35, 40, 48)),
                    add_modifier: mods,
                },
                TagView::BlockQuote => now == Style {
                    fg: Some(Color::Gray),
                    bg: was.bg,
                    add_modifier: mods,
                },
                TagView::Link(_) | TagView::Image(_) => now == Style {
                    fg: Some(Color::Blue),
                    bg: was.bg,
                    add_modifier: mods | UNDERLINED,
                },
                _ => now == was,
            }
        }),
        p.stepped(Mark::Start(tag)).styles == p.styles.push(p.style),
        p.stepped(Mark::Start(tag)).quote == p.quote + (if tag is BlockQuote {
            1int
        } else {
            0
        }),
        p.stepped(Mark::Start(tag)).code == (p.code || tag is CodeBlock),
{
    let q = Page { styles: p.styles.push(p.style), ..p };
    lemma_flush(q);
    let f = q.flushed(false);
    lemma_texted(f.counted(), f.indent() + f.bullet());
    lemma_texted(q, "│ "@);
}

proof fn lemma_closed_around(p: Page, tag: Ending)
    ensures
        p.closed_by(tag).styles == p.styles,
        p.closed_by(tag).style == p.style,
        p.closed_by(tag).quote == (if tag is BlockQuote && p.quote > 0 {
            p.quote - 1
        } else {
            p.quote as int
        }),
        p.closed_by(tag).code == (p.code && !(tag is CodeBlock)),
{
    lemma_flush(p);
    lemma_texted(p, " "@);
    if p.links.len() > 0 {
        lemma_texted(
            Page { links: p.links.drop_last(), ..p },
            " ("@ + p.links.last() + ")"@,
        );
    }
}

/// Law: behind an element the style is what it was before it, whatever its text
/// was, as long as what was opened in it was closed in it. A quote or a code block
/// ends with the element.
pub proof fn law_style_is_restored(p: Page, tag: TagView, inner: Page, end: Ending)
    requires
        inner.styles == p.stepped(Mark::Start(tag)).styles,
    ensures
        inner.stepped(Mark::End(end)).style == p.style,
        inner.stepped(Mark::End(end)).styles == p.styles,
        end is BlockQuote && inner.quote > 0 ==> inner.stepped(Mark::End(end)).quote == inner.quote
            - 1,
        !(end is BlockQuote) ==> inner.stepped(Mark::End(end)).quote == inner.quote,
        inner.stepped(Mark::End(end)).code == (inner.code && !(end is CodeBlock)),
{
    law_elements_set_the_style(p, tag);
    lemma_closed_around(inner, end);
    assert(p.styles.push(p.style).drop_last() =~= p.styles);
}

/// Law: a link's or an image's text is followed by where it leads, in brackets.
#[verifier::rlimit(60)]
pub proof fn law_links_show_where_they_lead(p: Page, url: Seq<char>, s: Seq<char>, image: bool)
    requires
        simple(url),
        simple(s),
    ensures
        ({
            let tag = if image {
                TagView::Image(url)
            } else {
                TagView::Link(url)
            };
            let end = if image {
                Ending::Image
            } else {
                Ending::Link
            };
            let inside = p.stepped(Mark::Start(tag)).stepped(Mark::Text(s));
            let behind = inside.stepped(Mark::End(end));
            &&& written(behind) == written(inside) + seq![' ', '('] + url + seq![')']
            &&& behind.links == p.links
            &&& behind.style == p.style
        }),
{
    let tag = if image {
        TagView::Image(url)
    } else {
        TagView::Link(url)
    };
    let start = p.started(tag);
    lemma_simple(start, s);
    let inside = start.texted(s);
    lemma_brackets();
    let shown = " ("@ + url + ")"@;
    lemma_clear_add(" ("@, url);
    lemma_clear_add(" ("@ + url, ")"@);
    assert(inside.links.last() == url);
    assert(inside.links.drop_last() =~= p.links);
    let popped = Page { links: p.links, ..inside };
    lemma_simple(popped, shown);
    assert(written(popped) == written(inside));
    assert(written(popped.texted(shown)) =~= written(inside) + seq![' ', '('] + url + seq![')']);
    assert(start.styles.last() == p.style);
}

proof fn lemma_digits_simple(n: nat)
    ensures
        simple(text::decimal_text(n)),
    decreases n,
{
    if n >= 10 {
        lemma_digits_simple(n / 10);
        let front = text::decimal_text(n / 10);
        let s = text::decimal_text(n);
        assert forall|i: int| 0 <= i < s.len() implies #[trigger] s[i] != '\n'
            && markdown::is_safe(s[i]) by {
            if i < front.len() {
                assert(front[i] == s[i]);
                assert(front[i] != '\n' && markdown::is_safe(front[i]));
            }
        }
    }
}

proof fn lemma_indent(n: nat)
    ensures
        text::times("  "@, n).len() == 2 * n,
        forall|i: int| 0 <= i < 2 * n ==> #[trigger] text::times("  "@, n)[i] == ' ',
    decreases n,
{
    reveal_strlit("  ");
    if n > 0 {
        lemma_indent((n - 1) as nat);
    }
}

/// Law: an item begins a new row, two columns further in for each list its own
/// stands in. In a numbered list it begins with its number, which is one more for
/// the next item; in any other with a bullet.
#[verifier::spinoff_prover]
#[verifier::rlimit(60)]
pub proof fn law_items_begin_with_their_number(p: Page)
    requires
        p.quote == 0,
        p.lists.len() > 0,
    ensures
        ({
            let fresh = p.flushed(false);
            let item = p.stepped(Mark::Start(TagView::Item));
            let depth = (p.lists.len() - 1) as nat;
            let added = written(item).skip(written(fresh).len() as int);
            &&& item.rows == fresh.rows
            &&& written(fresh).is_prefix_of(written(item))
            &&& added.len() >= 2 * depth
            &&& forall|i: int| 0 <= i < 2 * depth ==> #[trigger] added[i] == ' '
            &&& match p.lists.last() {
                Some(n) => {
                    &&& added.skip(2 * depth as int) == text::decimal_text(n as nat) + seq!['.', ' ']
                    &&& n < u64::MAX ==> item.lists == p.lists.drop_last().push(
                        Some((n + 1) as u64),
                    )
                },
                None => added.skip(2 * depth as int) == seq!['•', ' '] && item.lists == p.lists,
            }
        }),
{
    let fresh = p.flushed(false);
    let item = p.stepped(Mark::Start(TagView::Item));
    let depth = (p.lists.len() - 1) as nat;
    lemma_item(p);
    let shown = fresh.indent() + fresh.bullet();
    lemma_indent(depth);
    reveal_strlit(". ");
    reveal_strlit("• ");
    assert(". "@ =~= seq!['.', ' ']);
    assert("• "@ =~= seq!['•', ' ']);
    assert(written(item).take(written(fresh).len() as int) =~= written(fresh));
    let added = written(item).skip(written(fresh).len() as int);
    assert(added =~= shown);
    assert(added.skip(2 * depth as int) =~= fresh.bullet());
}

#[verifier::spinoff_prover]
#[verifier::rlimit(60)]
proof fn lemma_item(p: Page)
    requires
        p.quote == 0,
        p.lists.len() > 0,
    ensures
        ({
            let fresh = p.flushed(false);
            let item = p.stepped(Mark::Start(TagView::Item));
            &&& item.rows == fresh.rows
            &&& written(item) == written(fresh) + (fresh.indent() + fresh.bullet())
            &&& p.lists.last() matches Some(n) ==> n < u64::MAX ==> item.lists
                == p.lists.drop_last().push(Some((n + 1) as u64))
            &&& p.lists.last() is None ==> item.lists == p.lists
        }),
{
    let q = Page { styles: p.styles.push(p.style), ..p };
    let fresh = p.flushed(false);
    let f = q.flushed(false);
    assert(written(f) == written(fresh));
    assert(f.indent() == fresh.indent() && f.bullet() == fresh.bullet());
    lemma_bullet(fresh);
    let shown = fresh.indent() + fresh.bullet();
    let counted = f.counted();
    assert(written(counted) == written(fresh));
    lemma_simple(counted, shown);
    let item = p.stepped(Mark::Start(TagView::Item));
    assert(item == counted.texted(shown));
    if let Some(n) = p.lists.last() {
        if n < u64::MAX {
            assert(item.lists =~= p.lists.drop_last().push(Some((n + 1) as u64)));
        }
    }
}

proof fn lemma_bullet(f: Page)
    requires
        f.lists.len() > 0,
    ensures
        simple(f.indent() + f.bullet()),
{
    lemma_indent((f.lists.len() - 1) as nat);
    reveal_strlit(". ");
    reveal_strlit("• ");
    assert(clear(". "@));
    if let Some(n) = f.lists.last() {
        lemma_digits_simple(n as nat);
        lemma_clear_add(text::decimal_text(n as nat), ". "@);
    }
    assert(clear(f.bullet()));
    assert(clear(f.indent()));
    lemma_clear_add(f.indent(), f.bullet());
}

/// Law: lists nest. A list that opens is the innermost one, counts from the number
/// it gives, and leaves the lists around it as they are when it closes.
pub proof fn law_lists_nest(p: Page, start: Option<u64>, inner: Page)
    requires
        inner.lists.len() == p.lists.len() + 1,
        inner.lists.drop_last() == p.lists,
    ensures
        p.stepped(Mark::Start(TagView::List(start))).lists == p.lists.push(start),
        inner.stepped(Mark::End(Ending::List)).lists == p.lists,
{
}

/// Whether the text on the page ended, with an empty row behind it.
pub open spec fn apart(p: Page) -> bool {
    p.spans.len() == 0 && (p.rows.len() == 0 || p.rows.last().len() == 0)
}

/// Law: blocks stand apart. Behind a heading, a paragraph, a list, a code block or
/// a rule, and in front of a heading, a code block or a quote, there is an empty
/// row, unless there is nothing above it. Nothing that was on the page is lost, and
/// nothing else is added.
pub proof fn law_blocks_stand_apart(p: Page, mark: Mark)
    requires
        match mark {
            Mark::End(e) => e is Heading || e is Paragraph || e is CodeBlock || e is List,
            Mark::Start(t) => t is Heading || t is CodeBlock || t is BlockQuote,
            Mark::Rule => true,
            _ => false,
        },
    ensures
        apart(p.stepped(mark)),
        !(mark is Rule) ==> {
            let rows = if p.spans.len() > 0 {
                p.rows.push(p.spans)
            } else {
                p.rows
            };
            p.stepped(mark).rows == if rows.len() > 0 && rows.last().len() > 0 {
                rows.push(Seq::empty())
            } else {
                rows
            }
        },
{
}

/// Law: a rule is a row of its own.
#[verifier::spinoff_prover]
#[verifier::rlimit(60)]
pub proof fn law_rule(p: Page)
    requires
        p.quote == 0,
    ensures
        ({
            let rows = p.stepped(Mark::Rule).rows;
            &&& rows.len() >= 2
            &&& rows.last().len() == 0
            &&& markdown::plain(rows[rows.len() - 2]) == seq![
                '─',
                '─',
                '─',
                '─',
                '─',
                '─',
                '─',
                '─',
            ]
        }),
{
    reveal_strlit("────────");
    let bar = "────────"@;
    assert(bar =~= seq!['─', '─', '─', '─', '─', '─', '─', '─']);
    let above = p.blanked();
    assert(simple(bar));
    lemma_simple(above, bar);
    let with = above.texted(bar);
    assert(with.spans =~= seq![(p.style, bar)]);
    lemma_plain_one((p.style, bar));
    let below = with.blanked();
    assert(below.rows =~= above.rows.push(with.spans).push(Seq::empty()));
}

/// Law: an item's box is ticked where it is done, and a footnote's mark stands in
/// square brackets.
pub proof fn law_marks_in_brackets(p: Page, s: Seq<char>)
    requires
        p.quote == 0 || p.spans.len() > 0,
        simple(s),
    ensures
        written(p.stepped(Mark::TaskListMarker(true))) == written(p) + seq!['[', 'x', ']', ' '],
        written(p.stepped(Mark::TaskListMarker(false))) == written(p) + seq!['[', ' ', ']', ' '],
        written(p.stepped(Mark::FootnoteReference(s))) == written(p) + seq!['['] + s + seq![']'],
{
    lemma_brackets();
    let shown = "["@ + s + "]"@;
    lemma_clear_add("["@, s);
    lemma_clear_add("["@ + s, "]"@);
    lemma_simple(p, "[x] "@);
    lemma_simple(p, "[ ] "@);
    lemma_simple(p, shown);
    assert(written(p) + shown =~= written(p) + seq!['['] + s + seq![']']);
}

/// Law: a table is a row of the page for each of its rows; a cell begins with a bar
/// and a blank and ends with a blank.
#[verifier::spinoff_prover]
#[verifier::rlimit(60)]
pub proof fn law_table_cells(p: Page, s: Seq<char>)
    requires
        p.quote == 0 || p.spans.len() > 0,
        simple(s),
    ensures
        ({
            let cell = p.stepped(Mark::Start(TagView::TableCell)).stepped(Mark::Text(s)).stepped(
                Mark::End(Ending::TableCell),
            );
            &&& written(cell) == written(p) + seq!['│', ' '] + s + seq![' ']
            &&& cell.rows == p.rows
        }),
        p.stepped(Mark::Start(TagView::TableRow)).spans.len() == 0,
        p.stepped(Mark::End(Ending::TableRow)).spans.len() == 0,
        p.stepped(Mark::End(Ending::TableHead)).spans.len() == 0,
        p.spans.len() > 0 ==> p.stepped(Mark::End(Ending::TableRow)).rows == p.rows.push(p.spans),
        p.spans.len() > 0 ==> p.stepped(Mark::End(Ending::TableHead)).rows == p.rows.push(p.spans),
        p.spans.len() > 0 ==> p.stepped(Mark::End(Ending::Item)).rows == p.rows.push(p.spans),
{
    reveal_strlit("│ ");
    assert("│ "@ =~= seq!['│', ' ']);
    lemma_blank();
    let q = Page { styles: p.styles.push(p.style), ..p };
    assert(simple("│ "@));
    lemma_simple(q, "│ "@);
    assert(written(q) == written(p));
    let one = q.texted("│ "@);
    lemma_simple(one, s);
    let two = one.texted(s);
    lemma_simple(two, " "@);
    let three = two.texted(" "@);
    let cell = two.ended(Ending::TableCell);
    assert(written(cell) == written(three));
    assert(written(cell) =~= written(p) + seq!['│', ' '] + s + seq![' ']);
}

/// Law: nothing is taken back. What is on the page before a step is on it after the
/// step, in front of whatever the step adds.
#[verifier::spinoff_prover]
#[verifier::rlimit(60)]
pub proof fn law_nothing_is_taken_back(p: Page, mark: Mark)
    requires
        p.quote == 0,
    ensures
        written(p).is_prefix_of(written(p.stepped(mark))),
{
    let q = p.stepped(mark);
    let pushed = Page { styles: p.styles.push(p.style), ..p };
    lemma_flush(p);
    lemma_flush(pushed);
    assert(written(pushed) == written(p));
    let f = pushed.flushed(false);
    lemma_prefix_flush(p);
    lemma_prefix_flush(pushed);
    match mark {
        Mark::Start(tag) => {
            lemma_texted(f.counted(), f.indent() + f.bullet());
            assert(written(f.counted()) == written(f));
            lemma_texted(pushed, "│ "@);
            let added = markdown::safe_text(f.indent() + f.bullet());
            lemma_prefix_add(written(f), added);
            lemma_prefix_add(written(pushed), markdown::safe_text("│ "@));
            lemma_prefix_twice(written(p), written(f), written(f) + added);
            lemma_prefix_add(written(p), Seq::empty());
            assert(written(p) + Seq::<char>::empty() =~= written(p));
        },
        Mark::End(tag) => {
            let c = p.closed_by(tag);
            assert(written(q) == written(c));
            lemma_texted(p, " "@);
            lemma_prefix_add(written(p), markdown::safe_text(" "@));
            if p.links.len() > 0 {
                let popped = Page { links: p.links.drop_last(), ..p };
                let shown = " ("@ + p.links.last() + ")"@;
                lemma_texted(popped, shown);
                assert(written(popped) == written(p));
                lemma_prefix_add(written(p), markdown::safe_text(shown));
            }
            let bare = Page { code: false, ..p };
            assert(written(bare) == written(p));
            lemma_prefix_flush(bare);
            let outer = Page {
                lists: if p.lists.len() > 0 {
                    p.lists.drop_last()
                } else {
                    p.lists
                },
                ..p
            };
            assert(written(outer) == written(p));
            lemma_prefix_flush(outer);
            lemma_prefix_add(written(p), Seq::empty());
            assert(written(p) + Seq::<char>::empty() =~= written(p));
        },
        Mark::Rule => {
            let above = p.blanked();
            let bar = "────────"@;
            lemma_texted(above, bar);
            lemma_prefix_add(written(above), markdown::safe_text(bar));
            lemma_prefix_flush(above.texted(bar));
            lemma_prefix_twice(written(p), written(above), written(above.texted(bar)));
            lemma_prefix_twice(written(p), written(above.texted(bar)), written(q));
        },
        Mark::Code(s) => {
            law_text_is_written(p, s);
            lemma_prefix_add(written(p), markdown::safe_text(s));
        },
        Mark::Text(s)
        | Mark::Html(s)
        | Mark::InlineHtml(s)
        | Mark::InlineMath(s)
        | Mark::DisplayMath(s) => {
            law_text_is_written(p, s);
            lemma_prefix_add(written(p), markdown::safe_text(s));
        },
        Mark::FootnoteReference(s) => {
            lemma_texted(p, "["@ + s + "]"@);
            lemma_prefix_add(written(p), markdown::safe_text("["@ + s + "]"@));
        },
        Mark::TaskListMarker(done) => {
            lemma_texted(p, "[x] "@);
            lemma_texted(p, "[ ] "@);
            lemma_prefix_add(written(p), markdown::safe_text("[x] "@));
            lemma_prefix_add(written(p), markdown::safe_text("[ ] "@));
        },
        Mark::SoftBreak => {
            lemma_texted(p, " "@);
            lemma_prefix_add(written(p), markdown::safe_text(" "@));
            lemma_prefix_add(written(p), seq!['\n']);
            assert(written(p) + seq!['\n'] =~= written(p).push('\n'));
        },
        Mark::HardBreak => {
            lemma_prefix_add(written(p), seq!['\n']);
            assert(written(p) + seq!['\n'] =~= written(p).push('\n'));
        },
    }
}

proof fn lemma_prefix_add(a: Seq<char>, b: Seq<char>)
    ensures
        a.is_prefix_of(a + b),
{
    assert((a + b).take(a.len() as int) =~= a);
}

proof fn lemma_prefix_twice(a: Seq<char>, b: Seq<char>, c: Seq<char>)
    requires
        a.is_prefix_of(b),
        b.is_prefix_of(c),
    ensures
        a.is_prefix_of(c),
{
    assert(c.take(a.len() as int) =~= a) by {
        assert(b.take(a.len() as int) =~= a);
        assert(c.take(b.len() as int) =~= b);
    }
}

proof fn lemma_prefix_flush(p: Page)
    ensures
        written(p).is_prefix_of(written(p.flushed(false))),
        written(p).is_prefix_of(written(p.blanked())),
{
    lemma_flush(p);
    let f = p.flushed(false);
    lemma_prefix_add(written(p), seq!['\n']);
    lemma_prefix_add(written(p), Seq::empty());
    assert(written(p) + seq!['\n'] =~= written(p).push('\n'));
    assert(written(p) + Seq::<char>::empty() =~= written(p));
    let b = p.blanked();
    if f.rows.len() > 0 && f.rows.last().len() > 0 {
        assert(b.rows.drop_last() =~= f.rows);
        assert(written(b) =~= written(f).push('\n'));
        lemma_prefix_add(written(f), seq!['\n']);
        assert(written(f) + seq!['\n'] =~= written(f).push('\n'));
    } else {
        lemma_prefix_add(written(f), Seq::empty());
        assert(written(f) + Seq::<char>::empty() =~= written(f));
    }
    lemma_prefix_twice(written(p), written(f), written(b));
}

/// The rows on a page, the one under way among them.
pub open spec fn rows_on(p: Page) -> Seq<Pieces> {
    if p.spans.len() > 0 {
        p.rows.push(p.spans)
    } else {
        p.rows
    }
}

/// Law: a document's rows are those that were laid out, the last one under way
/// among them, without the empty ones at the end.
pub proof fn law_document_ends_with_text(marks: Seq<Mark>)
    ensures
        ({
            let all = rows_on(markdown::page_after(marks, marks.len() as int));
            let rows = composed(marks);
            &&& rows.is_prefix_of(all)
            &&& rows.len() > 0 ==> rows.last().len() > 0
            &&& forall|i: int| rows.len() <= i < all.len() ==> (#[trigger] all[i]).len() == 0
        }),
{
    let p = markdown::page_after(marks, marks.len() as int);
    assert(rows_on(p) == p.flushed(false).rows);
    lemma_blank_end(rows_on(p));
}

proof fn lemma_blank_end(all: Seq<Pieces>)
    ensures
        ({
            let rows = markdown::without_blank_end(all);
            &&& rows.is_prefix_of(all)
            &&& rows.len() > 0 ==> rows.last().len() > 0
            &&& forall|i: int| rows.len() <= i < all.len() ==> (#[trigger] all[i]).len() == 0
        }),
    decreases all.len(),
{
    let rows = markdown::without_blank_end(all);
    if all.len() > 0 && all.last().len() == 0 {
        lemma_blank_end(all.drop_last());
        assert(rows =~= all.take(rows.len() as int)) by {
            assert(rows =~= all.drop_last().take(rows.len() as int));
        }
        assert forall|i: int| rows.len() <= i < all.len() implies (#[trigger] all[i]).len() == 0 by {
            if i < all.len() - 1 {
                assert(all.drop_last()[i].len() == 0);
            }
        }
    } else {
        assert(rows =~= all.take(rows.len() as int));
    }
}

/// Law: a list, the end of a quote and a table's head or row end the row under way, and
/// leave none behind where nothing was on it; a forced line break always ends it.
pub proof fn law_rows_are_ended(p: Page, start: Option<u64>)
    ensures
        ({
            let rows = if p.spans.len() > 0 {
                p.rows.push(p.spans)
            } else {
                p.rows
            };
            let list = p.stepped(Mark::Start(TagView::List(start)));
            let quote = p.stepped(Mark::End(Ending::BlockQuote));
            let head = p.stepped(Mark::Start(TagView::TableHead));
            let row = p.stepped(Mark::Start(TagView::TableRow));
            let item = p.stepped(Mark::End(Ending::Item));
            let broken = p.stepped(Mark::HardBreak);
            &&& list.rows == rows && list.spans.len() == 0
            &&& quote.rows == rows && quote.spans.len() == 0
            &&& head.rows == rows && head.spans.len() == 0
            &&& row.rows == rows && row.spans.len() == 0
            &&& item.rows == rows && item.spans.len() == 0
            &&& broken.rows == p.rows.push(p.spans) && broken.spans.len() == 0
        }),
{
}

/// Law: a paragraph and an element that is shown in no way of its own begin where they
/// stand.
pub proof fn law_plain_elements(p: Page)
    ensures
        p.stepped(Mark::Start(TagView::Paragraph)).rows == p.rows,
        p.stepped(Mark::Start(TagView::Paragraph)).spans == p.spans,
        p.stepped(Mark::Start(TagView::Other)).rows == p.rows,
        p.stepped(Mark::Start(TagView::Other)).spans == p.spans,
        p.stepped(Mark::End(Ending::Other)).rows == p.rows,
        p.stepped(Mark::End(Ending::Other)).spans == p.spans,
{
}

} // verus!
