//! Styled pieces of text, and syntax highlighting by `syntect`.
use syntect::easy::HighlightLines;
use syntect::highlighting::{Theme, ThemeSet};
use syntect::parsing::{SyntaxReference, SyntaxSet};
use crate::command::string_views;
use vstd::prelude::*;

verus! {

#[verifier::external_type_specification]
#[verifier::external_body]
pub struct ExSyntaxSet(SyntaxSet);

#[verifier::external_type_specification]
#[verifier::external_body]
pub struct ExTheme(Theme);

#[verifier::external_type_specification]
#[verifier::external_body]
pub struct ExSyntaxReference(SyntaxReference);

/// A colour of the terminal.
#[derive(Debug, Clone, Copy, PartialEq, Eq, Structural)]
pub enum Color {
    Yellow,
    Rgb(u8, u8, u8),
}

/// How a piece of text is drawn: its foreground colour, if it has one.
#[derive(Debug, Clone, Copy, PartialEq, Eq, Structural)]
pub struct SpanStyle {
    pub fg: Option<Color>,
}

/// A piece of text with its style, kept for drawing.
#[derive(Clone, Debug, PartialEq, Eq)]
pub struct CachedSpan {
    pub content: String,
    pub style: SpanStyle,
}

impl CachedSpan {
    /// A piece of text with no style.
    pub fn raw(content: &str) -> (s: CachedSpan)
        ensures
            s.content@ == content@,
            s.style.fg is None,
    {
        CachedSpan { content: String::from_str(content), style: SpanStyle { fg: None } }
    }
}

/// A piece of text as it is drawn: its characters and its style.
pub type SpanView = (Seq<char>, SpanStyle);

/// The pieces of a styled line, as text and style.
pub open spec fn row_view(row: Seq<CachedSpan>) -> Seq<SpanView> {
    row.map_values(|s: CachedSpan| (s.content@, s.style))
}

/// Styled lines, as text and style.
pub open spec fn rows_view(rows: Seq<Vec<CachedSpan>>) -> Seq<Seq<SpanView>> {
    rows.map_values(|r: Vec<CachedSpan>| row_view(r@))
}

/// Styled lines, each of which may be missing, as text and style.
pub open spec fn opt_rows_view(rows: Seq<Option<Vec<CachedSpan>>>) -> Seq<Option<Seq<SpanView>>> {
    rows.map_values(
        |r: Option<Vec<CachedSpan>>|
            match r {
                Some(v) => Some(row_view(v@)),
                None => None,
            },
    )
}

/// Syntect's default syntaxes and themes, with the syntax for one file
/// extension and one theme picked from them. Only `load_highlighting`
/// makes one, so the syntax always belongs to the set kept with it.
pub struct Highlighting {
    syntax_set: SyntaxSet,
    syntax: SyntaxReference,
    theme: Theme,
    extension: String,
    theme_name: String,
}

impl Highlighting {
    /// The file extension whose syntax was picked.
    pub closed spec fn extension(self) -> Seq<char> {
        self.extension@
    }

    /// The name of the theme that was picked.
    pub closed spec fn theme_name(self) -> Seq<char> {
        self.theme_name@
    }
}

/// Whether syntect's default syntaxes have one for the file extension and
/// its default themes one of the name.
pub uninterp spec fn highlighting_found(extension: Seq<char>, theme: Seq<char>) -> bool;

/// What syntect makes of `lines`, highlighted one after the other by one
/// highlighter for the default syntax of the file extension and the theme
/// of the name: for each line its styled pieces, or nothing where the line
/// fails to parse.
pub uninterp spec fn highlighted(extension: Seq<char>, theme: Seq<char>, lines: Seq<Seq<char>>) -> Seq<Option<Seq<SpanView>>>;

/// Loads syntect's default syntaxes (`SyntaxSet::load_defaults_newlines`)
/// and themes (`ThemeSet::load_defaults`), and picks the syntax for a file
/// extension (`SyntaxSet::find_syntax_by_extension`) and the theme of a
/// name (a lookup in `ThemeSet::themes`); `None` where either is missing.
/// The defaults are built into syntect, so the outcome depends on the two
/// names alone.
#[verifier::external_body]
pub(crate) fn load_highlighting(extension: &str, theme: &str) -> (r: Option<Highlighting>)
    ensures
        r is Some == highlighting_found(extension@, theme@),
        r matches Some(h) ==> h.extension() == extension@ && h.theme_name() == theme@,
{
    let syntax_set = SyntaxSet::load_defaults_newlines();
    let themes = ThemeSet::load_defaults();
    let syntax = syntax_set.find_syntax_by_extension(extension)?.clone();
    let chosen = themes.themes.get(theme)?.clone();
    Some(Highlighting {
        syntax_set,
        syntax,
        theme: chosen,
        extension: extension.to_string(),
        theme_name: theme.to_string(),
    })
}

/// Highlights `lines` one after the other with one highlighter
/// (`HighlightLines::new`, then `HighlightLines::highlight_line` for each
/// line), each piece with its foreground colour; a line that fails to parse
/// gives `None`. A result for each line.
#[verifier::external_body]
pub(crate) fn highlight_lines(h: &Highlighting, lines: &Vec<String>) -> (r: Vec<Option<Vec<CachedSpan>>>)
    ensures
        r@.len() == lines@.len(),
        opt_rows_view(r@) == highlighted(h.extension(), h.theme_name(), string_views(lines@)),
{
    let mut hl = HighlightLines::new(&h.syntax, &h.theme);
    lines.iter().map(|line| hl.highlight_line(line, &h.syntax_set).ok().map(|pieces| pieces.iter().map(|(style, text)| CachedSpan {
        content: text.to_string(),
        style: SpanStyle { fg: Some(Color::Rgb(style.foreground.r, style.foreground.g, style.foreground.b)) },
    }).collect())).collect()
}

} // verus!
