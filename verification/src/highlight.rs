//! Syntax highlighting of fetched files and diffs, by syntect with its
//! default syntaxes and the `base16-ocean.dark` theme.

use vstd::prelude::*;
use crate::browser::{syntax_ext, syntax_extension};
use crate::text::{first_index, lemma_first_index};

verus! {

/// One coloured piece of a line: red, green, blue, and the text.
pub type Span = (u8, u8, u8, String);

/// The highlighting that syntect gives `content` with its default syntaxes
/// and themes: the syntax is the one its default set has for the extension
/// `ext`, or plain text where it has none; the theme is `base16-ocean.dark`.
/// Each line (with its line ending) becomes the pieces that syntect colours
/// alike, with their foreground colour; `None` where syntect fails on a line.
pub uninterp spec fn highlighted(content: Seq<char>, ext: Seq<char>) -> Option<
    Seq<Seq<(u8, u8, u8, Seq<char>)>>,
>;

/// The pieces of one line as plain values.
pub open spec fn span_views(v: Seq<Span>) -> Seq<(u8, u8, u8, Seq<char>)> {
    v.map_values(|s: Span| (s.0, s.1, s.2, s.3@))
}

/// The lines of a highlighted text as plain values.
pub open spec fn line_views(v: Seq<Vec<Span>>) -> Seq<Seq<(u8, u8, u8, Seq<char>)>> {
    v.map_values(|l: Vec<Span>| span_views(l@))
}

/// The lines of `s` with their endings, as `syntect::util::LinesWithEndings`
/// yields them: each runs up to and with a `'\n'`, the last one to the end
/// of the text; an empty text has none.
pub open spec fn lines_with_endings(s: Seq<char>) -> Seq<Seq<char>>
    decreases s.len(),
{
    if s.len() == 0 {
        seq![]
    } else if s.contains('\n') {
        let i = first_index(s, '\n');
        proof {
            lemma_first_index(s, '\n');
        }
        seq![s.take(i + 1)] + lines_with_endings(s.skip(i + 1))
    } else {
        seq![s]
    }
}

/// The text of the pieces `spans`, one after the other.
pub open spec fn joined(spans: Seq<(u8, u8, u8, Seq<char>)>) -> Seq<char>
    decreases spans.len(),
{
    if spans.len() == 0 {
        seq![]
    } else {
        joined(spans.drop_last()) + spans.last().3
    }
}

/// The highlighted lines `hl` are the lines of `content`, with their
/// endings, one for one, each cut into pieces that rebuild it.
pub open spec fn rebuilds(content: Seq<char>, hl: Seq<Seq<(u8, u8, u8, Seq<char>)>>) -> bool {
    &&& hl.len() == lines_with_endings(content).len()
    &&& forall|i: int| 0 <= i < hl.len() ==> joined(#[trigger] hl[i]) == lines_with_endings(content)[i]
}

/// `syntect::easy::HighlightLines::highlight_line`, line by line over
/// `syntect::util::LinesWithEndings`, with the syntax that
/// `SyntaxSet::find_syntax_by_extension` finds in
/// `SyntaxSet::load_defaults_newlines()` (else
/// `find_syntax_plain_text`) and the theme `base16-ocean.dark` of
/// `ThemeSet::load_defaults()`. Claimed: the result is the one named by
/// `highlighted` for the content and the extension, the default sets being
/// fixed data of the crate; and, as syntect documents of
/// `LinesWithEndings` and of the pieces of a highlighted line, that there is
/// one highlighted line per line of the content and that its pieces rebuild
/// that line. Which colours and which cuts syntect makes is left to it.
#[verifier::external_body]
fn highlight_lines(content: &str, ext: &str) -> (r: Option<Vec<Vec<Span>>>)
    ensures
        match r {
            Some(v) => highlighted(content@, ext@) == Some(line_views(v@)),
            None => highlighted(content@, ext@) is None,
        },
        r matches Some(v) ==> rebuilds(content@, line_views(v@)),
{
    let ps = syntect::parsing::SyntaxSet::load_defaults_newlines();
    let ts = syntect::highlighting::ThemeSet::load_defaults();
    let syntax = ps.find_syntax_by_extension(ext).unwrap_or_else(|| ps.find_syntax_plain_text());
    let mut h = syntect::easy::HighlightLines::new(syntax, &ts.themes["base16-ocean.dark"]);
    let mut out = Vec::new();
    for line in syntect::util::LinesWithEndings::from(content) {
        let mut spans = Vec::new();
        for (s, t) in h.highlight_line(line, &ps).ok()? {
            spans.push((s.foreground.r, s.foreground.g, s.foreground.b, t.to_string()));
        }
        out.push(spans);
    }
    Some(out)
}

/// Highlights `content`, a file at `path` or a diff, with the syntax that
/// the path's extension picks. The pieces of each highlighted line rebuild
/// that line of `content`.
pub fn highlight_text(content: &str, path: &str) -> (r: Option<Vec<Vec<Span>>>)
    ensures
        match r {
            Some(v) => highlighted(content@, syntax_ext(path@)) == Some(line_views(v@)),
            None => highlighted(content@, syntax_ext(path@)) is None,
        },
        r matches Some(v) ==> rebuilds(content@, line_views(v@)),
{
    let ext = syntax_extension(path);
    highlight_lines(content, ext.as_str())
}

} // verus!
