//! Commit metadata and a scrollable CommonMark message body.
use crate::geometry;
use crate::geometry::Rect;
use crate::git::commit::CommitInfo;
use crate::screen;
use crate::screen::{can_count, draw_block, draw_lines, Cells, Span, TextLine};
use crate::state::DetailState;
use crate::style;
use crate::style::{dim, Style, BOLD};
use crate::text;
use crate::ui::file_list;
use crate::ui::markdown;
use chrono::TimeZone;
use ratatui::buffer::Buffer;
use vstd::prelude::*;
use vstd::string::*;

verus! {

/// The first second of the year -262143, the earliest that a date is known for.
pub const EARLIEST: i64 = -8_334_601_228_800;

/// The last second of the year 262142, the latest that a date is known for.
pub const LATEST: i64 = 8_210_266_876_799;

/// The first second of the year 0, which is written with four digits.
pub const YEAR_0: i64 = -62_167_219_200;

/// The first second of the year 10000, which is written with a sign in front.
pub const YEAR_10000: i64 = 253_402_300_800;

/// Whether a second has a date.
pub open spec fn has_date(seconds: i64) -> bool {
    EARLIEST <= seconds <= LATEST
}

/// Whether a zone may be so many seconds ahead of UTC: less than a day, either way.
pub open spec fn is_offset(offset: i32) -> bool {
    -86_400 < offset < 86_400
}

/// Two digits at `at`.
pub open spec fn digit_pair(s: Seq<char>, at: int) -> bool {
    '0' <= s[at] <= '9' && '0' <= s[at + 1] <= '9'
}

/// The number two digits write.
pub open spec fn pair_value(s: Seq<char>, at: int) -> int {
    (s[at] as int - '0' as int) * 10 + (s[at + 1] as int - '0' as int)
}

/// Whether a text is `YYYY-MM-DD HH:MM` with the hour and the minute of the local
/// second `local`. A year before 0 or after 9999 takes more than four characters.
pub open spec fn to_the_minute(s: Seq<char>, local: int) -> bool {
    let n = s.len();
    &&& n >= 16
    &&& YEAR_0 <= local < YEAR_10000 ==> n == 16
    &&& s[n - 12] == '-' && digit_pair(s, n - 11) && 1 <= pair_value(s, n - 11) <= 12
    &&& s[n - 9] == '-' && digit_pair(s, n - 8) && 1 <= pair_value(s, n - 8) <= 31
    &&& s[n - 6] == ' ' && digit_pair(s, n - 5) && pair_value(s, n - 5) == local % 86_400 / 3_600
    &&& s[n - 3] == ':' && digit_pair(s, n - 2) && pair_value(s, n - 2) == local % 3_600 / 60
}

/// What a pattern makes of a second in a zone that is `offset` seconds ahead of
/// UTC.
pub uninterp spec fn stamp_text(seconds: i64, offset: i32, pattern: Seq<char>) -> Option<Seq<char>>;

/// `TimeZone::timestamp_opt` and `DateTime::format` with `chrono::FixedOffset`.
/// Named `stamp_text`; every second that has a date has a stamp, which tells it
/// to the minute. A pattern that `DateTime::format` does not know makes it panic.
#[verifier::external_body]
fn stamp(seconds: i64, offset: i32, pattern: &str) -> (r: Option<String>)
    requires
        pattern@ == "%Y-%m-%d %H:%M"@,
    ensures
        stamp_view(r) == stamp_text(seconds, offset, pattern@),
        r is Some <==> (has_date(seconds) && is_offset(offset)),
        r matches Some(s) ==> to_the_minute(s@, seconds + offset),
{
    let zone = chrono::FixedOffset::east_opt(offset);
    let time = zone.and_then(|z| z.timestamp_opt(seconds, 0).single());
    time.map(|t| t.format(pattern).to_string())
}

/// `TimeZone::timestamp_opt` with `chrono::Local`, and the offset of the result:
/// how many seconds the machine's zone is ahead of UTC, for every second that has
/// a date. The zone is the machine's, so only the range is stated.
#[verifier::external_body]
fn local_offset(seconds: i64) -> (r: Option<i32>)
    ensures
        r is Some <==> has_date(seconds),
        r matches Some(offset) ==> is_offset(offset),
{
    chrono::Local.timestamp_opt(seconds, 0).single().map(|t| t.offset().local_minus_utc())
}

/// A stamp, by view.
pub open spec fn stamp_view(stamp: Option<String>) -> Option<Seq<char>> {
    match stamp {
        Some(s) => Some(s@),
        None => None,
    }
}

/// The text of a time, given its stamp.
pub open spec fn time_text(stamp: Option<Seq<char>>) -> Seq<char> {
    match stamp {
        Some(s) => s,
        None => "(unknown time)"@,
    }
}

/// The text of a time, given its stamp.
pub fn format_stamp(stamp: Option<String>) -> (r: String)
    ensures
        r@ == time_text(stamp_view(stamp)),
{
    match stamp {
        Some(s) => s,
        None => "(unknown time)".to_owned(),
    }
}

/// The text of a second in a zone that is `offset` seconds ahead of UTC.
pub open spec fn time_at(seconds: i64, offset: i32) -> Seq<char> {
    time_text(stamp_text(seconds, offset, "%Y-%m-%d %H:%M"@))
}

/// Whether a text may tell of a second: its date and time in some zone where the
/// second has a date, else that the time is unknown.
pub open spec fn tells(seconds: i64, date: Seq<char>) -> bool {
    if has_date(seconds) {
        exists|offset: i32|
            is_offset(offset) && date == #[trigger] time_at(seconds, offset)
                && to_the_minute(date, seconds + offset)
    } else {
        date == time_text(None)
    }
}

/// `YYYY-MM-DD HH:MM` in a zone that is `offset` seconds ahead of UTC.
pub fn format_time_at(seconds: i64, offset: i32) -> (r: String)
    ensures
        r@ == time_at(seconds, offset),
        if has_date(seconds) && is_offset(offset) {
            to_the_minute(r@, seconds + offset)
        } else {
            r@ == time_text(None)
        },
{
    format_stamp(stamp(seconds, offset, "%Y-%m-%d %H:%M"))
}

/// `YYYY-MM-DD HH:MM` in the machine's own zone. Which zone that is, is not
/// stated.
pub fn format_time(seconds: i64) -> (r: String)
    ensures
        tells(seconds, r@),
{
    match local_offset(seconds) {
        Some(offset) => format_time_at(seconds, offset),
        None => format_stamp(None),
    }
}

/// How many files changed, in words.
pub open spec fn files_text(n: nat) -> Seq<char> {
    if n == 1 {
        "1 file"@
    } else {
        text::decimal_text(n) + " files"@
    }
}

/// The row that tells of the commit's diff.
pub open spec fn diff_row(detail: DetailState) -> (Style, Seq<char>) {
    let quiet = style::plain().with_fg(style::dim_color());
    match detail {
        DetailState::Loading => (quiet, "Loading…"@),
        DetailState::Unavailable => (quiet, "diffs unavailable"@),
        DetailState::Failed(msg) => (quiet, "diff failed: "@ + msg@),
        DetailState::Ready(d) => (
            style::plain(),
            files_text(d.files@.len()) + " changed  +"@ + text::decimal_text(d.insertions as nat)
                + (" -"@ + text::decimal_text(d.removals as nat)),
        ),
    }
}

/// The rows above the message body.
pub open spec fn facts(
    commit: CommitInfo,
    date: Seq<char>,
    detail: DetailState,
) -> Seq<markdown::Pieces> {
    let plain = style::plain();
    seq![
        seq![(plain.with_fg(style::dim_color()), commit.id.text())],
        seq![(plain, "Author  "@ + commit.author@)],
        seq![(plain, "Date    "@ + date)],
        seq![diff_row(detail)],
        seq![(plain, ""@)],
        seq![(plain.with_modifier(BOLD), commit.summary@)],
    ]
}

/// The message body's rows, behind an empty one.
pub open spec fn body_rows(body: Seq<char>) -> Seq<markdown::Pieces> {
    if body.len() == 0 {
        Seq::empty()
    } else {
        seq![Seq::empty()] + markdown::composed(markdown::parsed(body, markdown::OPTIONS))
    }
}

/// The pane's rows, before they are wrapped.
pub open spec fn detail_lines(
    commit: CommitInfo,
    date: Seq<char>,
    detail: DetailState,
) -> Seq<markdown::Pieces> {
    facts(commit, date, detail) + body_rows(commit.body@)
}

/// The pane's rows.
pub open spec fn detail_rows(
    commit: CommitInfo,
    date: Seq<char>,
    detail: DetailState,
    width: u16,
) -> Seq<markdown::Pieces> {
    markdown::rows_of(detail_lines(commit, date, detail), width)
}

/// What is left of rows scrolled by `scroll`, as far as `height` rows show.
pub open spec fn window(rows: Seq<markdown::Pieces>, scroll: nat, height: nat) -> Seq<
    markdown::Pieces,
> {
    let left = rows.skip(geometry::least(scroll as int, rows.len() as int));
    left.take(geometry::least(height as int, left.len() as int))
}

/// How many rows the pane's content has; none where there is nothing to draw.
pub open spec fn detail_count(
    area: Rect,
    commit: Option<CommitInfo>,
    date: Seq<char>,
    detail: DetailState,
) -> nat {
    if area.is_blank() || area.inside().is_blank() {
        0
    } else {
        match commit {
            Some(c) => detail_rows(c, date, detail, area.inside().width).len(),
            None => 0,
        }
    }
}

/// The cells once the pane was drawn.
pub open spec fn detail_cells(
    cells: Cells,
    bounds: Rect,
    area: Rect,
    commit: Option<CommitInfo>,
    date: Seq<char>,
    detail: DetailState,
    scroll: nat,
    focused: bool,
) -> Cells {
    if area.is_blank() {
        cells
    } else {
        let inner = area.inside();
        let boxed = screen::block_cells(
            cells,
            bounds,
            area,
            " Commit Detail "@,
            file_list::border_of(focused),
            None,
        );
        match commit {
            Some(c) if drawable(c, date, detail, scroll, inner) => screen::paragraph_cells(
                boxed,
                bounds,
                inner,
                screen::shown_lines(visible_rows(c, date, detail, scroll, inner)),
            ),
            _ => boxed,
        }
    }
}

/// The rows that show inside the border.
pub open spec fn visible_rows(
    commit: CommitInfo,
    date: Seq<char>,
    detail: DetailState,
    scroll: nat,
    inner: Rect,
) -> Seq<markdown::Pieces> {
    window(detail_rows(commit, date, detail, inner.width), scroll, inner.height as nat)
}

/// Whether there is room for the rows and the terminal can count their columns.
pub open spec fn drawable(
    commit: CommitInfo,
    date: Seq<char>,
    detail: DetailState,
    scroll: nat,
    inner: Rect,
) -> bool {
    !inner.is_blank() && screen::countable(visible_rows(commit, date, detail, scroll, inner))
}

/// Rows of ordinary length are drawn wherever there is room for them.
pub open spec fn draws_short_rows(
    area: Rect,
    commit: Option<CommitInfo>,
    date: Seq<char>,
    detail: DetailState,
    scroll: nat,
) -> bool {
    let inner = area.inside();
    commit matches Some(c) ==> !area.is_blank() && !inner.is_blank() && screen::short_runs(
        visible_rows(c, date, detail, scroll, inner),
    ) ==> drawable(c, date, detail, scroll, inner)
}

/// One row of one piece.
fn row(style: Style, s: String) -> (r: TextLine)
    ensures
        screen::line_view(r.spans@) == seq![(style, s@)],
{
    let mut spans: Vec<Span> = Vec::new();
    spans.push(Span { style, text: s });
    assert(screen::line_view(spans@) =~= seq![(style, s@)]);
    TextLine { spans }
}

/// The row that tells of the commit's diff.
fn diff_line(detail: &DetailState) -> (r: TextLine)
    ensures
        screen::line_view(r.spans@) == seq![diff_row(*detail)],
{
    let quiet = Style::default().fg(dim());
    match detail {
        DetailState::Loading => row(quiet, "Loading…".to_owned()),
        DetailState::Unavailable => row(quiet, "diffs unavailable".to_owned()),
        DetailState::Failed(msg) => row(quiet, text::join2("diff failed: ", msg.as_str())),
        DetailState::Ready(d) => {
            let n: usize = d.files.len();
            let files = if n == 1 {
                "1 file".to_owned()
            } else {
                let count = text::decimal(n as u64);
                text::join2(count.as_str(), " files")
            };
            let ins = text::decimal(d.insertions as u64);
            let rem = text::decimal(d.removals as u64);
            let front = text::join3(files.as_str(), " changed  +", ins.as_str());
            let back = text::join2(" -", rem.as_str());
            row(Style::default(), text::join2(front.as_str(), back.as_str()))
        },
    }
}

/// The pane's rows, before they are wrapped.
fn content(commit: &CommitInfo, date: &str, detail: &DetailState) -> (r: Vec<TextLine>)
    ensures
        screen::lines_view(r@) == detail_lines(*commit, date@, *detail),
{
    let plain = Style::default();
    let mut rows: Vec<TextLine> = Vec::new();
    rows.push(row(plain.fg(dim()), commit.id.to_hex()));
    rows.push(row(plain, text::join2("Author  ", commit.author.as_str())));
    rows.push(row(plain, text::join2("Date    ", date)));
    rows.push(diff_line(detail));
    rows.push(row(plain, "".to_owned()));
    rows.push(row(plain.add_modifier(BOLD), commit.summary.clone()));
    let ghost top = rows@;
    proof {
        assert(screen::lines_view(top) =~= facts(*commit, date@, *detail));
    }
    if !commit.body.as_str().is_empty() {
        rows.push(TextLine { spans: Vec::new() });
        let mut body = markdown::lines(commit.body.as_str());
        let ghost below = body@;
        rows.append(&mut body);
        proof {
            let rest = body_rows(commit.body@);
            assert(rows@.len() == 7 + below.len());
            assert(screen::lines_view(rows@) =~= facts(*commit, date@, *detail) + rest) by {
                assert forall|i: int| 0 <= i < rows@.len() implies screen::lines_view(rows@)[i] == (
                facts(*commit, date@, *detail) + rest)[i] by {
                    if i < 6 {
                        assert(rows@[i] == top[i]);
                        assert(screen::lines_view(top)[i] == facts(*commit, date@, *detail)[i]);
                    } else if i == 6 {
                        assert(screen::line_view(rows@[i].spans@) =~= Seq::<
                            (Style, Seq<char>),
                        >::empty());
                    } else {
                        assert(rows@[i] == below[i - 7]);
                        assert(screen::lines_view(below)[i - 7] == rest[i - 6]);
                    }
                }
            }
        }
    } else {
        proof {
            assert(commit.body@.len() == 0);
            assert(facts(*commit, date@, *detail) + body_rows(commit.body@) =~= facts(
                *commit,
                date@,
                *detail,
            ));
        }
    }
    rows
}

/// The rows that show.
fn visible(rows: Vec<TextLine>, scroll: usize, height: usize) -> (r: Vec<TextLine>)
    ensures
        screen::lines_view(r@) == window(
            screen::lines_view(rows@),
            scroll as nat,
            height as nat,
        ),
{
    let mut out: Vec<TextLine> = Vec::new();
    let mut i: usize = if scroll <= rows.len() {
        scroll
    } else {
        rows.len()
    };
    let ghost from = i as int;
    while i < rows.len() && out.len() < height
        invariant
            0 <= from <= i <= rows.len(),
            out@.len() == i - from,
            out@.len() <= height,
            screen::lines_view(out@) == screen::lines_view(rows@).subrange(from, i as int),
        decreases rows.len() - i,
    {
        let ghost before = out@;
        let line = copy_line(&rows[i]);
        out.push(line);
        i += 1;
        proof {
            assert(screen::lines_view(out@) =~= screen::lines_view(rows@).subrange(
                from,
                i as int,
            )) by {
                assert(screen::lines_view(out@) =~= screen::lines_view(before).push(
                    screen::line_view(line.spans@),
                ));
            }
        }
    }
    proof {
        assert(screen::lines_view(out@) =~= window(
            screen::lines_view(rows@),
            scroll as nat,
            height as nat,
        ));
    }
    out
}

/// A copy of a row.
fn copy_line(line: &TextLine) -> (r: TextLine)
    ensures
        screen::line_view(r.spans@) == screen::line_view(line.spans@),
{
    let mut spans: Vec<Span> = Vec::new();
    let mut i: usize = 0;
    while i < line.spans.len()
        invariant
            i <= line.spans.len(),
            spans@.len() == i,
            screen::line_view(spans@) == screen::line_view(line.spans@).take(i as int),
        decreases line.spans.len() - i,
    {
        let ghost before = spans@;
        spans.push(Span { style: line.spans[i].style, text: line.spans[i].text.clone() });
        i += 1;
        assert(screen::line_view(spans@) =~= screen::line_view(line.spans@).take(i as int)) by {
            assert(screen::line_view(before) == screen::line_view(line.spans@).take(i - 1));
            assert forall|k: int| 0 <= k < i implies screen::line_view(spans@)[k]
                == screen::line_view(line.spans@)[k] by {
                if k < i - 1 {
                    assert(screen::line_view(spans@)[k] == screen::line_view(before)[k]);
                }
            }
        }
    }
    assert(screen::line_view(spans@) =~= screen::line_view(line.spans@));
    TextLine { spans }
}

/// Renders the pane, including its border. `date` is the commit's time as text.
///
/// The rows are left out where one has a cluster so wide that the terminal cannot
/// count its columns.
///
/// Returns how many rows the pane's content has, which is what bounds a caller's
/// scroll offset.
pub fn draw_detail(
    buf: &mut Buffer,
    area: Rect,
    commit: Option<&CommitInfo>,
    date: &str,
    detail: &DetailState,
    scroll: usize,
    focused: bool,
) -> (r: usize)
    requires
        area.within(screen::buffer_area(*old(buf))),
        area.width <= 0x7fff,
    ensures
        r == detail_count(
            area,
            match commit {
                Some(c) => Some(*c),
                None => None,
            },
            date@,
            *detail,
        ),
        screen::buffer_area(*final(buf)) == screen::buffer_area(*old(buf)),
        screen::buffer_cells(*final(buf)) == detail_cells(
            screen::buffer_cells(*old(buf)),
            screen::buffer_area(*old(buf)),
            area,
            match commit {
                Some(c) => Some(*c),
                None => None,
            },
            date@,
            *detail,
            scroll as nat,
            focused,
        ),
        draws_short_rows(
            area,
            match commit {
                Some(c) => Some(*c),
                None => None,
            },
            date@,
            *detail,
            scroll as nat,
        ),
        screen::same_outside(
            screen::buffer_cells(*old(buf)),
            screen::buffer_cells(*final(buf)),
            area,
        ),
{
    let ghost c0 = screen::buffer_cells(*buf);
    let ghost bounds = screen::buffer_area(*buf);
    proof {
        reveal(screen::same_outside);
        reveal_strlit(" Commit Detail ");
    }
    if area.is_empty() {
        return 0;
    }
    draw_block(buf, area, " Commit Detail ", file_list::border(focused), None);
    let ghost c1 = screen::buffer_cells(*buf);
    let inner = area.inset();
    proof {
        geometry::law_inside(area, bounds);
    }
    let shown = match commit {
        Some(c) => c,
        None => {
            return 0;
        },
    };
    if inner.is_empty() {
        return 0;
    }
    let lines = content(shown, date, detail);
    let wrapped = markdown::wrap(&lines, inner.width);
    let count: usize = wrapped.len();
    let rows = visible(wrapped, scroll, inner.height as usize);
    if can_count(&rows) {
        draw_lines(buf, inner, &rows);
        proof {
            screen::lemma_also(c0, c1, screen::buffer_cells(*buf), inner, area);
        }
    }
    count
}

/// Law: the pane tells of a commit from the top: its id, its author, its date, its
/// diff, and behind an empty row its summary in bold; then, behind another empty
/// row, its message, where it has one.
pub proof fn law_detail_rows(commit: CommitInfo, date: Seq<char>, detail: DetailState)
    ensures
        ({
            let rows = detail_lines(commit, date, detail);
            &&& rows.len() >= 6
            &&& rows[0].len() == 1 && rows[0][0].1 == commit.id.text()
            &&& rows[1].len() == 1 && rows[1][0].1 == seq![
                'A',
                'u',
                't',
                'h',
                'o',
                'r',
                ' ',
                ' ',
            ] + commit.author@
            &&& rows[2].len() == 1 && rows[2][0].1 == seq![
                'D',
                'a',
                't',
                'e',
                ' ',
                ' ',
                ' ',
                ' ',
            ] + date
            &&& rows[3].len() == 1 && rows[3][0] == diff_row(detail)
            &&& rows[4].len() == 1 && rows[4][0].1.len() == 0
            &&& rows[5].len() == 1 && rows[5][0].1 == commit.summary@
            &&& rows[5][0].0.add_modifier & BOLD == BOLD
            &&& commit.body@.len() == 0 ==> rows.len() == 6
            &&& commit.body@.len() > 0 ==> {
                let body = markdown::composed(markdown::parsed(commit.body@, markdown::OPTIONS));
                &&& rows.len() == 7 + body.len()
                &&& rows[6].len() == 0
                &&& rows.skip(7) == body
            }
        }),
{
    reveal_strlit("Author  ");
    reveal_strlit("Date    ");
    reveal_strlit("");
    assert("Author  "@ =~= seq!['A', 'u', 't', 'h', 'o', 'r', ' ', ' ']);
    assert("Date    "@ =~= seq!['D', 'a', 't', 'e', ' ', ' ', ' ', ' ']);
    assert((0u16 | 0x001u16) & 0x001u16 == 0x001u16) by (bit_vector);
    let rows = detail_lines(commit, date, detail);
    if commit.body@.len() > 0 {
        let body = markdown::composed(markdown::parsed(commit.body@, markdown::OPTIONS));
        assert(rows.skip(7) =~= body);
    }
}

/// Law: of a commit's diff the pane tells how many files it changes and how many
/// lines it adds and removes, or why there is none.
pub proof fn law_diff_row(detail: DetailState)
    ensures
        match detail {
            DetailState::Ready(d) => {
                let n = d.files@.len();
                let files = if n == 1 {
                    seq!['1', ' ', 'f', 'i', 'l', 'e']
                } else {
                    text::decimal_text(n) + seq![' ', 'f', 'i', 'l', 'e', 's']
                };
                diff_row(detail).1 == files + seq![
                    ' ',
                    'c',
                    'h',
                    'a',
                    'n',
                    'g',
                    'e',
                    'd',
                    ' ',
                    ' ',
                    '+',
                ] + text::decimal_text(d.insertions as nat) + (seq![' ', '-'] + text::decimal_text(
                    d.removals as nat,
                ))
            },
            DetailState::Failed(msg) => diff_row(detail).1 == "diff failed: "@ + msg@,
            DetailState::Loading => diff_row(detail).1 == "Loading…"@,
            DetailState::Unavailable => diff_row(detail).1 == "diffs unavailable"@,
        },
{
    reveal_strlit("1 file");
    reveal_strlit(" files");
    reveal_strlit(" changed  +");
    reveal_strlit(" -");
    assert("1 file"@ =~= seq!['1', ' ', 'f', 'i', 'l', 'e']);
    assert(" files"@ =~= seq![' ', 'f', 'i', 'l', 'e', 's']);
    assert(" changed  +"@ =~= seq![' ', 'c', 'h', 'a', 'n', 'g', 'e', 'd', ' ', ' ', '+']);
    assert(" -"@ =~= seq![' ', '-']);
}

/// Law: scrolled by so many rows, the pane shows the rows behind them in order, as
/// many as it has room for.
pub proof fn law_scrolled_rows(rows: Seq<markdown::Pieces>, scroll: nat, height: nat, i: int)
    ensures
        ({
            let w = window(rows, scroll, height);
            &&& w.len() <= height
            &&& scroll + height <= rows.len() ==> w.len() == height
            &&& scroll <= rows.len() <= scroll + height ==> w.len() == rows.len() - scroll
            &&& scroll >= rows.len() ==> w.len() == 0
            &&& 0 <= i < w.len() ==> w[i] == rows[scroll + i]
        }),
{
}

} // verus!
