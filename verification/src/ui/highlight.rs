//! Syntax highlighting for the file diff view.
//!
//! `syntect` owns the parsing; this keeps one parser per file, maps its colours
//! onto styles, and refuses a result that would lose characters. A line inside a
//! block comment or a multi-line string is only coloured correctly when the
//! parser carried its state forward from the lines above it, so a parser lives
//! for as long as the file being highlighted.
use crate::path;
use crate::path::{extension, file_name};
use crate::style;
use crate::style::{Color, Style};
use crate::text;
use syntect::easy::HighlightLines;
use syntect::highlighting::{Theme, ThemeSet};
use syntect::parsing::SyntaxSet;
use vstd::prelude::*;
use vstd::string::*;

verus! {

/// `syntect::parsing::SyntaxSet`, the syntaxes files are parsed with.
#[verifier::external_type_specification]
#[verifier::external_body]
pub struct ExSyntaxSet(syntect::parsing::SyntaxSet);

/// `syntect::highlighting::Theme`, the colours of a file's parts.
#[verifier::external_type_specification]
#[verifier::external_body]
pub struct ExTheme(syntect::highlighting::Theme);

/// `syntect::easy::HighlightLines`, a parser part of the way through a file.
#[verifier::external_type_specification]
#[verifier::external_body]
pub struct ExHighlightLines<'a>(syntect::easy::HighlightLines<'a>);

/// What a parser was made from, and the lines it has read.
pub struct Reader {
    pub syntaxes: SyntaxSet,
    pub theme: Theme,
    /// The extension or file name its syntax was found by.
    pub key: Seq<char>,
    pub read: Seq<Seq<char>>,
}

/// A piece of a line and its foreground: red, green and blue.
pub type Piece = ((u8, u8, u8), Seq<char>);

/// Whether a syntax is filed under an extension or file name.
pub uninterp spec fn knows(syntaxes: syntect::parsing::SyntaxSet, key: Seq<char>) -> bool;

/// The theme of this name among `syntect`'s own.
pub uninterp spec fn theme_named(name: Seq<char>) -> syntect::highlighting::Theme;

/// What a parser was made from and what it has read.
pub uninterp spec fn reader_of(lines: syntect::easy::HighlightLines<'_>) -> Reader;

/// How a line is coloured after what the parser has read; `None` where parsing
/// fails.
pub uninterp spec fn colored(reader: Reader, line: Seq<char>) -> Option<Seq<((u8, u8, u8), Seq<char>)>>;

/// The pieces by view.
pub open spec fn pieces_view(v: Seq<((u8, u8, u8), String)>) -> Seq<Piece> {
    v.map_values(|p: ((u8, u8, u8), String)| (p.0, p.1@))
}

/// The pieces' text in order.
pub open spec fn pieces_text(v: Seq<Piece>) -> Seq<char>
    decreases v.len(),
{
    if v.len() == 0 {
        Seq::empty()
    } else {
        pieces_text(v.drop_last()) + v.last().1
    }
}

/// `SyntaxSet::load_defaults_newlines`: the syntaxes that `syntect` brings, in
/// the form that expects each line's terminator. Rust is one of them; which
/// others there are is not stated.
#[verifier::external_body]
fn load_syntaxes() -> (r: SyntaxSet)
    ensures
        knows(r, "rs"@),
{
    SyntaxSet::load_defaults_newlines()
}

/// `ThemeSet::load_defaults`: the theme of this name, or the empty one where
/// there is none; named `theme_named`.
#[verifier::external_body]
fn load_theme(name: &str) -> (r: Theme)
    ensures
        r == theme_named(name@),
{
    ThemeSet::load_defaults().themes.remove(name).unwrap_or_default()
}

/// `SyntaxSet::find_syntax_by_extension`: whether it finds one, named `knows`.
#[verifier::external_body]
fn finds(syntaxes: &SyntaxSet, key: &str) -> (r: bool)
    ensures
        r == knows(*syntaxes, key@),
{
    syntaxes.find_syntax_by_extension(key).is_some()
}

/// `HighlightLines::new` with the syntax that `find_syntax_by_extension` finds:
/// a parser that has read nothing. Without such a syntax it panics.
#[verifier::external_body]
fn start<'a>(syntaxes: &SyntaxSet, theme: &'a Theme, key: &str) -> (r: HighlightLines<'a>)
    requires
        knows(*syntaxes, key@),
    ensures
        reader_of(r) == (Reader {
            syntaxes: *syntaxes,
            theme: *theme,
            key: key@,
            read: Seq::empty(),
        }),
{
    HighlightLines::new(syntaxes.find_syntax_by_extension(key).unwrap(), theme)
}

/// `HighlightLines::highlight_line`: colours the next line, named `colored`, and
/// has then read it. The pieces are cut from the front of the line, in order and
/// none of them empty; they may stop short of its end.
#[verifier::external_body]
fn next_line<'a>(lines: &mut HighlightLines<'a>, syntaxes: &SyntaxSet, line: &str) -> (r: Option<
    Vec<((u8, u8, u8), String)>,
>)
    requires
        reader_of(*old(lines)).syntaxes == *syntaxes,
    ensures
        r is Some <==> colored(reader_of(*old(lines)), line@) is Some,
        r matches Some(v) ==> colored(reader_of(*old(lines)), line@) == Some(pieces_view(v@)),
        r matches Some(v) ==> pieces_text(pieces_view(v@)).is_prefix_of(line@),
        r matches Some(v) ==> forall|i: int| 0 <= i < v@.len() ==> #[trigger] v@[i].1@.len() > 0,
        r is Some ==> reader_of(*final(lines)) == (Reader {
            read: reader_of(*old(lines)).read.push(line@),
            ..reader_of(*old(lines))
        }),
{
    let ranges = lines.highlight_line(line, syntaxes).ok()?;
    let rgb = |s: syntect::highlighting::Style| (s.foreground.r, s.foreground.g, s.foreground.b);
    Some(ranges.into_iter().map(|(s, piece)| (rgb(s), piece.to_string())).collect())
}

/// What files are parsed and coloured with. Loading it is worth doing once.
pub struct Palette {
    syntaxes: SyntaxSet,
    theme: Theme,
}

impl Palette {
    /// The syntaxes files are parsed with.
    pub closed spec fn known_syntaxes(&self) -> SyntaxSet {
        self.syntaxes
    }

    /// The colours they are painted in.
    pub closed spec fn colors(&self) -> Theme {
        self.theme
    }

    /// Loads the syntaxes and a dark theme.
    pub fn load() -> (r: Self)
        ensures
            r.colors() == theme_named("base16-ocean.dark"@),
            knows(r.known_syntaxes(), "rs"@),
    {
        Palette { syntaxes: load_syntaxes(), theme: load_theme("base16-ocean.dark") }
    }

    /// The colours files are painted in.
    pub fn theme(&self) -> (r: &Theme)
        ensures
            *r == self.colors(),
    {
        &self.theme
    }
}

/// What a file's syntax is found by: its extension, else its whole name.
pub open spec fn key_of(syntaxes: SyntaxSet, file: Seq<char>) -> Option<Seq<char>> {
    match path::name_of(file) {
        None => None,
        Some(name) => match path::extension_of(name) {
            Some(ext) if knows(syntaxes, ext) => Some(ext),
            _ => if knows(syntaxes, name) {
                Some(name)
            } else {
                None
            },
        },
    }
}

/// What a file's syntax is found by.
fn syntax_for(syntaxes: &SyntaxSet, path: &str) -> (r: Option<String>)
    ensures
        match r {
            Some(k) => key_of(*syntaxes, path@) == Some(k@) && knows(*syntaxes, k@),
            None => key_of(*syntaxes, path@) is None,
        },
{
    match file_name(path) {
        None => None,
        Some(name) => {
            if let Some(ext) = extension(name.as_str()) {
                if finds(syntaxes, ext.as_str()) {
                    return Some(ext);
                }
            }
            if finds(syntaxes, name.as_str()) {
                Some(name)
            } else {
                None
            }
        },
    }
}

/// A line's styled pieces, by view.
pub open spec fn spans_view(v: Seq<(Style, String)>) -> Seq<(Style, Seq<char>)> {
    v.map_values(|p: (Style, String)| (p.0, p.1@))
}

/// The text of styled pieces in order.
pub open spec fn spans_text(v: Seq<(Style, Seq<char>)>) -> Seq<char>
    decreases v.len(),
{
    if v.len() == 0 {
        Seq::empty()
    } else {
        spans_text(v.drop_last()) + v.last().1
    }
}

/// A line in one piece and no colour.
pub open spec fn unstyled(line: Seq<char>) -> Seq<(Style, Seq<char>)> {
    seq![(style::plain(), line)]
}

/// `s` without the line feed it ends in.
pub open spec fn without_feed(s: Seq<char>) -> Seq<char> {
    if s.len() > 0 && s.last() == '\n' {
        s.drop_last()
    } else {
        s
    }
}

/// The pieces without the line feed that the last one ends in.
pub open spec fn fed_back(v: Seq<(Style, Seq<char>)>) -> Seq<(Style, Seq<char>)> {
    if v.len() == 0 {
        v
    } else {
        v.update(v.len() - 1, (v.last().0, without_feed(v.last().1)))
    }
}

/// The pieces that have any text.
pub open spec fn not_empty(v: Seq<(Style, Seq<char>)>) -> Seq<(Style, Seq<char>)>
    decreases v.len(),
{
    if v.len() == 0 {
        v
    } else if v.last().1.len() == 0 {
        not_empty(v.drop_last())
    } else {
        not_empty(v.drop_last()).push(v.last())
    }
}

/// The pieces a line is painted in, given what it was parsed into: without the
/// line feed that was added for the parser and without empty pieces; `None`
/// where they do not cover the line.
pub open spec fn finished(v: Seq<(Style, Seq<char>)>, line: Seq<char>) -> Option<
    Seq<(Style, Seq<char>)>,
> {
    let kept = not_empty(fed_back(v));
    if spans_text(kept).len() != line.len() {
        None
    } else if kept.len() == 0 {
        Some(unstyled(Seq::empty()))
    } else {
        Some(kept)
    }
}

proof fn lemma_not_empty(v: Seq<(Style, Seq<char>)>)
    ensures
        spans_text(not_empty(v)) == spans_text(v),
        forall|i: int| 0 <= i < not_empty(v).len() ==> #[trigger] not_empty(v)[i].1.len() > 0,
    decreases v.len(),
{
    if v.len() > 0 {
        lemma_not_empty(v.drop_last());
        if v.last().1.len() > 0 {
            assert(not_empty(v).drop_last() =~= not_empty(v.drop_last()));
        } else {
            assert(spans_text(v) =~= spans_text(v.drop_last()));
        }
    }
}

proof fn lemma_fed_back(v: Seq<(Style, Seq<char>)>)
    ensures
        v.len() > 0 && v.last().1.len() > 0 ==> spans_text(fed_back(v)) == without_feed(
            spans_text(v),
        ),
        spans_text(fed_back(v)).is_prefix_of(spans_text(v)),
{
    if v.len() > 0 {
        let w = fed_back(v);
        assert(w.drop_last() =~= v.drop_last());
        if v.last().1.len() > 0 {
            assert(spans_text(v).last() == v.last().1.last());
            assert(spans_text(w) =~= without_feed(spans_text(v)));
        }
    }
}

/// Law: the pieces a line is painted in give back exactly that line, whatever
/// the parser made of it.
pub proof fn law_finished(v: Seq<(Style, Seq<char>)>, line: Seq<char>)
    requires
        spans_text(v).is_prefix_of(line.push('\n')),
    ensures
        finished(v, line) matches Some(kept) ==> spans_text(kept) == line,
        finished(v, line) matches Some(kept) ==> forall|i: int|
            0 <= i < kept.len() ==> #[trigger] kept[i].1.len() > 0 || line.len() == 0,
{
    let cut = fed_back(v);
    lemma_not_empty(cut);
    lemma_fed_back(v);
    if let Some(kept) = finished(v, line) {
        if not_empty(cut).len() == 0 {
            assert(spans_text(not_empty(cut)).len() == 0);
            lemma_unstyled(Seq::empty());
            assert(spans_text(kept) =~= line);
        } else {
            let all = spans_text(v);
            assert(spans_text(cut).len() == line.len());
            assert forall|i: int| 0 <= i < line.len() implies spans_text(cut)[i] == line[i] by {
                assert(spans_text(cut)[i] == all[i]);
                assert(all[i] == line.push('\n')[i]);
            }
            assert(spans_text(kept) =~= line);
        }
    }
}

/// Tidies a parsed line into the pieces it is painted in, or refuses it.
pub fn finish(spans: Vec<(Style, String)>, line: &str) -> (r: Option<Vec<(Style, String)>>)
    requires
        spans_text(spans_view(spans@)).is_prefix_of(line@.push('\n')),
    ensures
        match r {
            Some(v) => finished(spans_view(spans@), line@) == Some(spans_view(v@)),
            None => finished(spans_view(spans@), line@) is None,
        },
{
    let ghost whole = spans_view(spans@);
    let n: usize = spans.len();
    let mut kept: Vec<(Style, String)> = Vec::new();
    let mut covered: u128 = 0;
    let wanted: usize = text::chars_of(line).len();
    let mut i: usize = 0;
    proof {
        lemma_fed_back(whole);
        lemma_not_empty(fed_back(whole));
        assert(fed_back(whole).take(0) =~= Seq::<(Style, Seq<char>)>::empty());
        assert(spans_view(kept@) =~= not_empty(fed_back(whole).take(0)));
    }
    while i < n
        invariant
            i <= n,
            n == spans.len(),
            whole == spans_view(spans@),
            wanted == line@.len(),
            spans_view(kept@) == not_empty(fed_back(whole).take(i as int)),
            covered == spans_text(fed_back(whole).take(i as int)).len(),
            covered <= wanted + 1,
            spans_text(whole).is_prefix_of(line@.push('\n')),
            spans_text(fed_back(whole)).is_prefix_of(spans_text(whole)),
        decreases n - i,
    {
        let ghost cut = fed_back(whole);
        let mut piece = spans[i].1.clone();
        if i + 1 == n {
            let chars = text::chars_of(piece.as_str());
            if chars.len() > 0 && chars[chars.len() - 1] == '\n' {
                piece.pop();
            }
        }
        let count: usize = text::chars_of(piece.as_str()).len();
        proof {
            assert(whole[i as int] == (spans@[i as int].0, spans@[i as int].1@));
            assert(cut[i as int] == (spans@[i as int].0, piece@));
            assert(cut.take(i + 1).drop_last() =~= cut.take(i as int));
            lemma_take_text(cut, i + 1);
        }
        covered = covered + count as u128;
        let ghost before = kept@;
        if count > 0 {
            kept.push((spans[i].0, piece));
            proof {
                assert(spans_view(kept@) =~= spans_view(before).push(cut[i as int]));
            }
        }
        i += 1;
    }
    proof {
        assert(fed_back(whole).take(n as int) =~= fed_back(whole));
    }
    if covered != wanted as u128 {
        return None;
    }
    if kept.len() == 0 {
        kept.push((Style::default(), String::new()));
        proof {
            let e: Seq<char> = Seq::empty();
            assert(kept@[0].1@ =~= e);
            assert(spans_view(kept@) =~= unstyled(e));
        }
    }
    Some(kept)
}

proof fn lemma_take_text(v: Seq<(Style, Seq<char>)>, n: int)
    requires
        0 <= n <= v.len(),
    ensures
        spans_text(v.take(n)).len() <= spans_text(v).len(),
    decreases v.len() - n,
{
    if n < v.len() {
        lemma_take_text(v, n + 1);
        assert(v.take(n + 1).drop_last() =~= v.take(n));
    } else {
        assert(v.take(n) =~= v);
    }
}

/// The style a piece is painted in: the colour it was given, and nothing else.
pub open spec fn painted(v: Seq<Piece>) -> Seq<(Style, Seq<char>)> {
    v.map_values(
        |p: Piece| (style::plain().with_fg(Color::Rgb(p.0.0, p.0.1, p.0.2)), p.1),
    )
}

/// A parser, and the path of the file it reads.
pub type Reading = Option<(Seq<char>, Reader)>;

/// The parser a line of `path` is given to: the one at work on that path, else
/// a new one.
pub open spec fn reader_for(
    reading: Reading,
    syntaxes: SyntaxSet,
    theme: Theme,
    key: Seq<char>,
    path: Seq<char>,
) -> Reader {
    match reading {
        Some((at, reader)) if at == path => reader,
        _ => Reader { syntaxes, theme, key, read: Seq::empty() },
    }
}

/// The pieces a line is painted in, and the parser that goes on from there. A
/// line that cannot be coloured comes back in one plain piece and ends the
/// parser's work.
pub open spec fn line_read(
    reading: Reading,
    syntaxes: SyntaxSet,
    theme: Theme,
    path: Seq<char>,
    line: Seq<char>,
) -> (Seq<(Style, Seq<char>)>, Reading) {
    match key_of(syntaxes, path) {
        None => (unstyled(line), None),
        Some(key) => {
            let reader = reader_for(reading, syntaxes, theme, key, path);
            match colored(reader, line.push('\n')) {
                None => (unstyled(line), None),
                Some(pieces) => match finished(painted(pieces), line) {
                    None => (unstyled(line), None),
                    Some(spans) => (
                        spans,
                        Some((path, Reader { read: reader.read.push(line.push('\n')), ..reader })),
                    ),
                },
            }
        },
    }
}

/// Highlights lines of one file at a time.
///
/// Feed it a file's lines in order: it keeps the parser between calls, and
/// starts over when the path changes or after `reset`.
pub struct Highlighter<'a> {
    palette: &'a Palette,
    current: Option<(String, HighlightLines<'a>)>,
}

impl<'a> Highlighter<'a> {
    /// The file being read and its parser.
    pub closed spec fn reading(&self) -> Reading {
        match self.current {
            Some((path, lines)) => Some((path@, reader_of(lines))),
            None => None,
        }
    }

    /// What files are parsed and coloured with.
    pub closed spec fn palette(&self) -> Palette {
        *self.palette
    }

    /// The parser at work was made from this palette.
    pub open spec fn wf(&self) -> bool {
        self.reading() matches Some((_, reader)) ==> reader.syntaxes
            == self.palette().known_syntaxes()
    }

    /// A highlighter at work on nothing.
    pub fn new(palette: &'a Palette) -> (r: Self)
        ensures
            r.wf(),
            r.palette() == *palette,
            r.reading() is None,
    {
        Highlighter { palette, current: None }
    }

    /// Forgets the file being read, so that the next line starts a new one even
    /// when its path is the same.
    pub fn reset(&mut self)
        ensures
            final(self).wf(),
            final(self).palette() == old(self).palette(),
            final(self).reading() is None,
    {
        self.current = None;
    }

    /// Highlights one line of `path`, without its terminator. The pieces' text
    /// is the line again, and none is empty unless the line is.
    pub fn line(&mut self, path: &str, line: &str) -> (r: Vec<(Style, String)>)
        requires
            old(self).wf(),
        ensures
            final(self).wf(),
            final(self).palette() == old(self).palette(),
            (spans_view(r@), final(self).reading()) == line_read(
                old(self).reading(),
                old(self).palette().known_syntaxes(),
                old(self).palette().colors(),
                path@,
                line@,
            ),
            spans_text(spans_view(r@)) == line@,
            forall|i: int| 0 <= i < r@.len() ==> #[trigger] r@[i].1@.len() > 0 || line@.len() == 0,
    {
        let taken = self.current.take();
        proof {
            lemma_unstyled(line@);
        }
        let key = match syntax_for(&self.palette.syntaxes, path) {
            Some(k) => k,
            None => {
                return plain_line(line);
            },
        };
        let mut lines = match taken {
            Some((at, lines)) => if text::same(at.as_str(), path) {
                lines
            } else {
                start(&self.palette.syntaxes, &self.palette.theme, key.as_str())
            },
            None => start(&self.palette.syntaxes, &self.palette.theme, key.as_str()),
        };
        let ghost reader = reader_of(lines);
        let mut owned = line.to_owned();
        owned.push('\n');
        let pieces = match next_line(&mut lines, &self.palette.syntaxes, owned.as_str()) {
            Some(p) => p,
            None => {
                return plain_line(line);
            },
        };
        let spans = convert(&pieces);
        proof {
            lemma_painted_text(pieces_view(pieces@));
        }
        match finish(spans, line) {
            Some(kept) => {
                proof {
                    law_finished(painted(pieces_view(pieces@)), line@);
                    assert forall|i: int| 0 <= i < kept@.len() implies #[trigger]
                        kept@[i].1@.len() > 0 || line@.len() == 0 by {
                        assert(spans_view(kept@)[i].1.len() > 0 || line@.len() == 0);
                    }
                }
                self.current = Some((path.to_owned(), lines));
                kept
            },
            None => plain_line(line),
        }
    }
}

proof fn lemma_unstyled(line: Seq<char>)
    ensures
        spans_text(unstyled(line)) == line,
{
    reveal_with_fuel(spans_text, 2);
    assert(unstyled(line).drop_last() =~= Seq::<(Style, Seq<char>)>::empty());
    assert(spans_text(unstyled(line)) =~= line);
}

proof fn lemma_painted_text(v: Seq<Piece>)
    ensures
        spans_text(painted(v)) == pieces_text(v),
    decreases v.len(),
{
    if v.len() > 0 {
        lemma_painted_text(v.drop_last());
        assert(painted(v).drop_last() =~= painted(v.drop_last()));
    }
}

/// A line in one piece and no colour.
fn plain_line(line: &str) -> (r: Vec<(Style, String)>)
    ensures
        spans_view(r@) == unstyled(line@),
        r@.len() == 1,
        r@[0].1@ == line@,
{
    let mut v: Vec<(Style, String)> = Vec::new();
    v.push((Style::default(), line.to_owned()));
    assert(spans_view(v@) =~= unstyled(line@));
    v
}

/// Only the foreground is taken: a background would paint over the pane's own.
fn convert(pieces: &Vec<((u8, u8, u8), String)>) -> (r: Vec<(Style, String)>)
    ensures
        spans_view(r@) == painted(pieces_view(pieces@)),
{
    let mut out: Vec<(Style, String)> = Vec::new();
    let mut i: usize = 0;
    while i < pieces.len()
        invariant
            i <= pieces.len(),
            out@.len() == i,
            forall|k: int|
                0 <= k < i ==> #[trigger] spans_view(out@)[k] == painted(pieces_view(pieces@))[k],
        decreases pieces.len() - i,
    {
        let (r, g, b) = pieces[i].0;
        let ghost before = out@;
        out.push((Style::default().fg(Color::Rgb(r, g, b)), pieces[i].1.clone()));
        proof {
            assert forall|k: int| 0 <= k < i + 1 implies #[trigger] spans_view(out@)[k] == painted(
                pieces_view(pieces@),
            )[k] by {
                if k < i {
                    assert(spans_view(out@)[k] == spans_view(before)[k]);
                }
            }
        }
        i += 1;
    }
    assert(spans_view(out@) =~= painted(pieces_view(pieces@)));
    out
}

/// Law: a piece keeps the text and the colour the parser gave it, and has nothing
/// else set.
pub proof fn law_pieces_keep_their_colors(v: Seq<Piece>, i: int)
    requires
        0 <= i < v.len(),
    ensures
        ({
            let (color, text) = v[i];
            let (style, shown) = painted(v)[i];
            &&& shown == text
            &&& style.fg == Some(Color::Rgb(color.0, color.1, color.2))
            &&& style.bg is None && style.add_modifier == 0
        }),
        painted(v).len() == v.len(),
{
}

/// Law: a line that the parser cut into pieces with text, the last of which ends in
/// the line feed that was added for it, is shown in those pieces, each in its colour,
/// without the line feed.
pub proof fn law_line_is_shown_in_its_pieces(
    reading: Reading,
    syntaxes: SyntaxSet,
    theme: Theme,
    path: Seq<char>,
    line: Seq<char>,
    key: Seq<char>,
    pieces: Seq<Piece>,
)
    requires
        key_of(syntaxes, path) == Some(key),
        colored(reader_for(reading, syntaxes, theme, key, path), line.push('\n')) == Some(pieces),
        pieces_text(pieces) == line.push('\n'),
        pieces.len() > 0,
        pieces.last().1.len() > 1,
        forall|i: int| 0 <= i < pieces.len() ==> (#[trigger] pieces[i]).1.len() > 0,
    ensures
        ({
            let (spans, next) = line_read(reading, syntaxes, theme, path, line);
            &&& spans.len() == pieces.len()
            &&& forall|i: int|
                0 <= i < pieces.len() - 1 ==> #[trigger] spans[i] == (
                    style::plain().with_fg(
                        Color::Rgb(pieces[i].0.0, pieces[i].0.1, pieces[i].0.2),
                    ),
                    pieces[i].1,
                )
            &&& spans.last().1 == pieces.last().1.drop_last()
            &&& next matches Some((at, reader)) && at == path && reader.read == reader_for(
                reading,
                syntaxes,
                theme,
                key,
                path,
            ).read.push(line.push('\n'))
        }),
{
    let v = painted(pieces);
    lemma_painted_text(pieces);
    let last = pieces.last().1;
    assert(last.last() == '\n') by {
        let all = pieces_text(pieces);
        assert(all == pieces_text(pieces.drop_last()) + last);
        assert(all.last() == last.last());
    }
    let back = fed_back(v);
    assert forall|i: int| 0 <= i < back.len() implies (#[trigger] back[i]).1.len() > 0 by {
        assert(pieces[i].1.len() > 0);
    }
    lemma_none_empty(back);
    lemma_fed_back_text(v, line);
    assert(finished(v, line) == Some(back));
}

proof fn lemma_none_empty(v: Seq<(Style, Seq<char>)>)
    requires
        forall|i: int| 0 <= i < v.len() ==> (#[trigger] v[i]).1.len() > 0,
    ensures
        not_empty(v) == v,
    decreases v.len(),
{
    if v.len() > 0 {
        assert(v[v.len() - 1].1.len() > 0);
        assert forall|i: int| 0 <= i < v.drop_last().len() implies (
        #[trigger] v.drop_last()[i]).1.len() > 0 by {
            assert(v[i].1.len() > 0);
        }
        lemma_none_empty(v.drop_last());
        assert(v.drop_last().push(v.last()) =~= v);
    }
}

proof fn lemma_fed_back_text(v: Seq<(Style, Seq<char>)>, line: Seq<char>)
    requires
        v.len() > 0,
        v.last().1.len() > 0,
        v.last().1.last() == '\n',
        spans_text(v) == line.push('\n'),
    ensures
        spans_text(fed_back(v)) == line,
{
    let back = fed_back(v);
    assert(back.drop_last() =~= v.drop_last());
    assert(spans_text(v) == spans_text(v.drop_last()) + v.last().1);
    assert(spans_text(back) =~= spans_text(v).drop_last());
    assert(line.push('\n').drop_last() =~= line);
}

/// Law: a file's syntax is found by its extension where one is known by it, else by
/// its whole name; a file with neither is shown plain.
pub proof fn law_syntax_is_found_by_the_name(
    syntaxes: SyntaxSet,
    theme: Theme,
    reading: Reading,
    file: Seq<char>,
    line: Seq<char>,
    name: Seq<char>,
)
    requires
        path::name_of(file) == Some(name),
    ensures
        (path::extension_of(name) matches Some(ext) && knows(syntaxes, ext)) ==> key_of(
            syntaxes,
            file,
        ) == path::extension_of(name),
        !(path::extension_of(name) matches Some(ext) && knows(syntaxes, ext)) && knows(
            syntaxes,
            name,
        ) ==> key_of(syntaxes, file) == Some(name),
        !(path::extension_of(name) matches Some(ext) && knows(syntaxes, ext)) && !knows(
            syntaxes,
            name,
        ) ==> line_read(reading, syntaxes, theme, file, line).0 == seq![(style::plain(), line)],
{
}

/// Law: a file is read on from where its last line ended, and another file from its
/// beginning.
pub proof fn law_each_file_is_read_from_its_beginning(
    reading: Reading,
    syntaxes: SyntaxSet,
    theme: Theme,
    key: Seq<char>,
    path: Seq<char>,
)
    ensures
        (reading matches Some((at, _)) && at == path) ==> reader_for(
            reading,
            syntaxes,
            theme,
            key,
            path,
        ) == (reading->0).1,
        !(reading matches Some((at, _)) && at == path) ==> reader_for(
            reading,
            syntaxes,
            theme,
            key,
            path,
        ).read.len() == 0,
{
}

} // verus!
