//! Colors by meaning, and how a piece of text looks.
//!
//! The defaults favor bright colors and the faint attribute over dark ones:
//! on a background of middle brightness the dark palette is illegible, while
//! a terminal's own foreground, which faint dims, stays readable.
use vstd::prelude::*;

use ratatui::style::Color as Named;

use crate::text;

verus! {

/// A terminal color.
#[derive(Clone, Copy, PartialEq, Eq, Structural, Debug)]
pub enum Color {
    Reset,
    Black,
    Red,
    Green,
    Yellow,
    Blue,
    Magenta,
    Cyan,
    Gray,
    DarkGray,
    LightRed,
    LightGreen,
    LightYellow,
    LightBlue,
    LightMagenta,
    LightCyan,
    White,
    Rgb(u8, u8, u8),
    Indexed(u8),
}

/// How a piece of text looks.
#[derive(Clone, Copy, PartialEq, Eq, Structural, Debug)]
pub struct Look {
    pub fg: Option<Color>,
    pub bg: Option<Color>,
    pub bold: bool,
    pub italic: bool,
    pub dim: bool,
}

/// Text as it comes.
pub open spec fn plain() -> Look {
    Look { fg: None, bg: None, bold: false, italic: false, dim: false }
}

/// Text in a color.
pub open spec fn colored(color: Color) -> Look {
    Look { fg: Some(color), ..plain() }
}

/// The same in bold.
pub open spec fn bold(look: Look) -> Look {
    Look { bold: true, ..look }
}

/// The same in italics.
pub open spec fn italic(look: Look) -> Look {
    Look { italic: true, ..look }
}

impl Look {
    /// Text as it comes.
    pub fn new() -> (out: Look)
        ensures
            out == plain(),
    {
        Look { fg: None, bg: None, bold: false, italic: false, dim: false }
    }

    /// Text in a color.
    pub fn of(color: Color) -> (out: Look)
        ensures
            out == colored(color),
    {
        Look { fg: Some(color), bg: None, bold: false, italic: false, dim: false }
    }

    /// The same in bold.
    pub fn bold(self) -> (out: Look)
        ensures
            out == bold(self),
    {
        Look { fg: self.fg, bg: self.bg, bold: true, italic: self.italic, dim: self.dim }
    }

    /// The same in italics.
    pub fn italic(self) -> (out: Look)
        ensures
            out == italic(self),
    {
        Look { fg: self.fg, bg: self.bg, bold: self.bold, italic: true, dim: self.dim }
    }
}

/// De-emphasized text. Faint dims whatever the terminal's foreground is; a
/// fixed color is for terminals that render faint poorly.
#[derive(Debug, Clone, Copy, PartialEq, Eq, Structural)]
pub enum Muted {
    Faint,
    Color(Color),
}

impl Muted {
    /// How de-emphasized text looks.
    pub open spec fn look(self) -> Look {
        match self {
            Muted::Faint => Look { dim: true, ..plain() },
            Muted::Color(color) => colored(color),
        }
    }

    /// How de-emphasized text looks.
    pub fn style(self) -> (out: Look)
        ensures
            out == self.look(),
    {
        match self {
            Muted::Faint => Look { fg: None, bg: None, bold: false, italic: false, dim: true },
            Muted::Color(color) => Look::of(color),
        }
    }
}

/// One color per meaning, so that a meaning looks the same wherever it appears.
#[derive(Debug, Clone, Copy, PartialEq, Eq, Structural)]
pub struct Theme {
    /// Borders, titles, the input cursor, discovered sites.
    pub accent: Color,
    /// Answers that match the majority; fast answers.
    pub agree: Color,
    /// Answers that do not match the majority.
    pub differ: Color,
    /// Failed queries; slow answers.
    pub error: Color,
    /// Queries under way; answers neither fast nor slow.
    pub pending: Color,
    /// A cache that serves an answer past its own TTL.
    pub stale: Color,
    /// Refetched, but upstream still serves the old data.
    pub upstream: Color,
    /// Labels, hints, countdowns, and borders around quiet panels.
    pub muted: Muted,
    /// Land outline of the map and the globe.
    pub coastline: Color,
    /// Graticule and limb of the globe.
    pub grid: Color,
}

/// The theme of a run that sets no color.
pub open spec fn default_theme() -> Theme {
    Theme {
        accent: Color::LightCyan,
        agree: Color::LightGreen,
        differ: Color::LightMagenta,
        error: Color::LightRed,
        pending: Color::LightYellow,
        stale: Color::Indexed(208),
        upstream: Color::LightBlue,
        muted: Muted::Faint,
        coastline: Color::Gray,
        grid: Color::Indexed(244),
    }
}

impl Default for Theme {
    fn default() -> (out: Theme)
        ensures
            out == default_theme(),
    {
        Theme {
            accent: Color::LightCyan,
            agree: Color::LightGreen,
            differ: Color::LightMagenta,
            error: Color::LightRed,
            pending: Color::LightYellow,
            stale: Color::Indexed(208),
            upstream: Color::LightBlue,
            muted: Muted::Faint,
            coastline: Color::Gray,
            grid: Color::Indexed(244),
        }
    }
}

/// The color that a text names, if it names one.
pub uninterp spec fn color_of(s: Seq<char>) -> Option<Color>;

/// `Color::from_str` of `ratatui`: a name, a number below 256, or `#` and six
/// hexadecimal digits. The result depends on the text alone.
#[verifier::external_body]
fn named_color(s: &str) -> (out: Option<Color>)
    ensures
        out == color_of(s@),
{
    Some(match s.parse().ok()? {
        Named::Reset => Color::Reset, Named::Black => Color::Black, Named::Red => Color::Red,
        Named::Green => Color::Green, Named::Yellow => Color::Yellow, Named::Blue => Color::Blue,
        Named::Magenta => Color::Magenta, Named::Cyan => Color::Cyan, Named::Gray => Color::Gray,
        Named::DarkGray => Color::DarkGray, Named::LightRed => Color::LightRed,
        Named::LightGreen => Color::LightGreen, Named::LightYellow => Color::LightYellow,
        Named::LightBlue => Color::LightBlue, Named::LightMagenta => Color::LightMagenta,
        Named::LightCyan => Color::LightCyan, Named::White => Color::White,
        Named::Rgb(r, g, b) => Color::Rgb(r, g, b), Named::Indexed(i) => Color::Indexed(i),
    })
}

/// What is said of a text that names no color.
pub open spec fn unrecognized(s: Seq<char>) -> Seq<char> {
    "unrecognized color "@ + text::quoted_text(s)
        + " (expected an ANSI name like \"lightcyan\", a 256-color index like \"208\", or hex like \"#ff8700\")"@
}

/// Is `out` the color, or what is said when there is none?
pub open spec fn color_or_reason(
    s: Seq<char>,
    found: Option<Color>,
    out: Result<Color, String>,
) -> bool {
    match out {
        Ok(color) => found == Some(color),
        Err(message) => found is None && message@ == unrecognized(s),
    }
}

/// Reads a color.
pub fn parse_color(s: &str) -> (out: Result<Color, String>)
    ensures
        color_or_reason(s@, color_of(s@), out),
{
    match named_color(s) {
        Some(color) => Ok(color),
        None => Err(
            "unrecognized color ".to_owned().concat(text::quoted(s).as_str()).concat(
                " (expected an ANSI name like \"lightcyan\", a 256-color index like \"208\", or hex like \"#ff8700\")",
            ),
        ),
    }
}

/// Is `out` the way to de-emphasize that a text names, or what is said when
/// it names none?
pub open spec fn muted_or_reason(s: Seq<char>, out: Result<Muted, String>) -> bool {
    if s == "faint"@ || s == "dim"@ {
        out matches Ok(muted) && muted == Muted::Faint
    } else {
        match out {
            Ok(muted) => muted is Color && color_of(s) == Some(muted->Color_0),
            Err(message) => color_of(s) is None && message@ == unrecognized(s),
        }
    }
}

/// Reads a way to de-emphasize: `faint`, `dim`, or a color.
pub fn parse_muted(s: &str) -> (out: Result<Muted, String>)
    ensures
        muted_or_reason(s@, out),
{
    if text::same(s, "faint") || text::same(s, "dim") {
        return Ok(Muted::Faint);
    }
    match parse_color(s) {
        Ok(color) => Ok(Muted::Color(color)),
        Err(message) => Err(message),
    }
}

// ---------------------------------------------------------------- laws

/// The colors of the roles where none are given.
pub proof fn roles_have_their_own_colors()
    ensures
        default_theme().accent == Color::LightCyan,
        default_theme().agree == Color::LightGreen,
        default_theme().differ == Color::LightMagenta,
        default_theme().error == Color::LightRed,
        default_theme().pending == Color::LightYellow,
        default_theme().stale == Color::Indexed(208),
        default_theme().upstream == Color::LightBlue,
        default_theme().muted == Muted::Faint,
        default_theme().coastline == Color::Gray,
        default_theme().grid == Color::Indexed(244),
{
}

/// A colored look has that color and nothing else; bold and italic add their
/// mark to what a look has already; muted is dim, or a color of its own.
pub proof fn looks_have_what_they_say(color: Color, look: Look)
    ensures
        colored(color).fg == Some(color) && colored(color).bg is None && !colored(color).bold
            && !colored(color).italic && !colored(color).dim,
        bold(look).bold && bold(look).fg == look.fg && bold(look).bg == look.bg && bold(look).italic
            == look.italic && bold(look).dim == look.dim,
        italic(look).italic && italic(look).fg == look.fg && italic(look).bg == look.bg && italic(
            look,
        ).bold == look.bold && italic(look).dim == look.dim,
        Muted::Faint.look().dim && Muted::Faint.look().fg is None && !Muted::Faint.look().bold,
        Muted::Color(color).look() == colored(color),
        plain().fg is None && plain().bg is None && !plain().bold && !plain().italic
            && !plain().dim,
{
}

/// A color is taken exactly when the text is one; faint and dim are no color and
/// the same.
pub proof fn muted_is_faint_or_a_color(s: Seq<char>, out: Result<Muted, String>)
    requires
        muted_or_reason(s, out),
    ensures
        s == "faint"@ || s == "dim"@ ==> out is Ok && out->Ok_0 is Faint,
        s != "faint"@ && s != "dim"@ ==> (out is Ok <==> color_of(s) is Some),
        s != "faint"@ && s != "dim"@ && out is Ok ==> out->Ok_0 == Muted::Color(color_of(s)->0),
        out is Err ==> out->Err_0@ == unrecognized(s),
{
}

/// A text that is no color is refused with itself quoted; one that is gives that
/// color.
pub proof fn colors_are_taken_or_refused(
    s: Seq<char>,
    found: Option<Color>,
    out: Result<Color, String>,
)
    requires
        color_or_reason(s, found, out),
    ensures
        out is Ok <==> found is Some,
        out is Ok ==> out->Ok_0 == found->0,
        out is Err ==> out->Err_0@ == "unrecognized color "@ + text::quoted_text(s)
            + " (expected an ANSI name like \"lightcyan\", a 256-color index like \"208\", or hex like \"#ff8700\")"@,
{
}

} // verus!
