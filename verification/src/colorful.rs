//! Styled and colored terminal text, rendered through ANSI escape codes.
//!
//! A [`Colorful`] value carries a piece of text with an optional style,
//! foreground and background. Rendering is pure: whether the terminal
//! actually supports colors is decided by the caller, which passes that
//! decision in as a boolean.

use vstd::prelude::*;
use crate::strutil;

verus! {

/// The sixteen ANSI colors plus the terminal default.
#[derive(Debug, Clone, Copy, PartialEq, Eq, Structural)]
pub enum Color {
    Default,
    Black,
    Red,
    Green,
    Yellow,
    Blue,
    Magenta,
    Cyan,
    White,
    BrightBlack,
    BrightRed,
    BrightGreen,
    BrightYellow,
    BrightBlue,
    BrightMagenta,
    BrightCyan,
    BrightWhite,
}

/// The ANSI text styles plus the terminal default.
#[derive(Debug, Clone, Copy, PartialEq, Eq, Structural)]
pub enum Style {
    Default,
    Bold,
    Dim,
    Italic,
    Underline,
    Blink,
    Reverse,
    Hidden,
}

/// The ANSI code of `color`, as foreground or background.
pub open spec fn spec_color_code(color: Color, is_background: bool) -> nat {
    let base: nat = if is_background {
        40
    } else {
        30
    };
    match color {
        Color::Default => 0,
        Color::Black => base,
        Color::Red => base + 1,
        Color::Green => base + 2,
        Color::Yellow => base + 3,
        Color::Blue => base + 4,
        Color::Magenta => base + 5,
        Color::Cyan => base + 6,
        Color::White => base + 7,
        Color::BrightBlack => base + 60,
        Color::BrightRed => base + 61,
        Color::BrightGreen => base + 62,
        Color::BrightYellow => base + 63,
        Color::BrightBlue => base + 64,
        Color::BrightMagenta => base + 65,
        Color::BrightCyan => base + 66,
        Color::BrightWhite => base + 67,
    }
}

/// The ANSI code of `style`.
pub open spec fn spec_style_code(style: Style) -> nat {
    match style {
        Style::Default => 0,
        Style::Bold => 1,
        Style::Dim => 2,
        Style::Italic => 3,
        Style::Underline => 4,
        Style::Blink => 5,
        Style::Reverse => 7,
        Style::Hidden => 8,
    }
}

/// The escape sequence that selects ANSI code `code`.
pub open spec fn spec_ansi_escape(code: nat) -> Seq<char> {
    "\x1b["@ + strutil::spec_dec(code) + "m"@
}

/// Text with an optional style, foreground color and background color.
pub struct Colorful {
    text: String,
    style: Option<Style>,
    foreground: Option<Color>,
    background: Option<Color>,
}

impl Colorful {
    /// The text carried.
    pub closed spec fn text_view(&self) -> Seq<char> {
        self.text@
    }

    /// The style chosen, if any.
    pub closed spec fn style_view(&self) -> Option<Style> {
        self.style
    }

    /// The foreground chosen, if any.
    pub closed spec fn foreground_view(&self) -> Option<Color> {
        self.foreground
    }

    /// The background chosen, if any.
    pub closed spec fn background_view(&self) -> Option<Color> {
        self.background
    }

    /// Bare text: no style, no colors.
    pub fn new(text: &str) -> (r: Self)
        ensures
            r.text_view() == text@,
            r.style_view() is None,
            r.foreground_view() is None,
            r.background_view() is None,
    {
        Colorful { text: text.to_owned(), style: None, foreground: None, background: None }
    }

    /// Choose a style.
    pub fn style(self, style: Style) -> (r: Self)
        ensures
            r.text_view() == self.text_view(),
            r.style_view() == Some(style),
            r.foreground_view() == self.foreground_view(),
            r.background_view() == self.background_view(),
    {
        Colorful { style: Some(style), ..self }
    }

    /// Choose a foreground color.
    pub fn foreground(self, color: Color) -> (r: Self)
        ensures
            r.text_view() == self.text_view(),
            r.style_view() == self.style_view(),
            r.foreground_view() == Some(color),
            r.background_view() == self.background_view(),
    {
        Colorful { foreground: Some(color), ..self }
    }

    /// Choose a background color.
    pub fn background(self, color: Color) -> (r: Self)
        ensures
            r.text_view() == self.text_view(),
            r.style_view() == self.style_view(),
            r.foreground_view() == self.foreground_view(),
            r.background_view() == Some(color),
    {
        Colorful { background: Some(color), ..self }
    }

    /// The escape sequence that selects `color`.
    pub fn get_ansi_color(color: Color, is_background: bool) -> (r: String)
        ensures
            r@ == spec_ansi_escape(spec_color_code(color, is_background)),
    {
        let base: u64 = if is_background {
            40
        } else {
            30
        };
        let code: u64 = match color {
            Color::Default => 0,
            Color::Black => base,
            Color::Red => base + 1,
            Color::Green => base + 2,
            Color::Yellow => base + 3,
            Color::Blue => base + 4,
            Color::Magenta => base + 5,
            Color::Cyan => base + 6,
            Color::White => base + 7,
            Color::BrightBlack => base + 60,
            Color::BrightRed => base + 61,
            Color::BrightGreen => base + 62,
            Color::BrightYellow => base + 63,
            Color::BrightBlue => base + 64,
            Color::BrightMagenta => base + 65,
            Color::BrightCyan => base + 66,
            Color::BrightWhite => base + 67,
        };
        ansi_escape(code)
    }

    /// The escape sequence that selects `style`.
    pub fn get_ansi_style(style: Style) -> (r: String)
        ensures
            r@ == spec_ansi_escape(spec_style_code(style)),
    {
        let code: u64 = match style {
            Style::Default => 0,
            Style::Bold => 1,
            Style::Dim => 2,
            Style::Italic => 3,
            Style::Underline => 4,
            Style::Blink => 5,
            Style::Reverse => 7,
            Style::Hidden => 8,
        };
        ansi_escape(code)
    }

    /// Render the text. With colors off, the bare text; with colors on,
    /// the chosen style and color escapes, the text, and a reset.
    pub fn to_text(&self, colors_enabled: bool) -> (r: String)
        ensures
            !colors_enabled ==> r@ == self.text_view(),
            colors_enabled ==> r@ == spec_rendered(*self),
    {
        if !colors_enabled {
            return self.text.clone();
        }
        let mut out: String = String::new();
        match self.style {
            Some(style) => {
                let e = Self::get_ansi_style(style);
                out.append(e.as_str());
            },
            None => {},
        }
        match self.foreground {
            Some(fg) => {
                let e = Self::get_ansi_color(fg, false);
                out.append(e.as_str());
            },
            None => {},
        }
        match self.background {
            Some(bg) => {
                let e = Self::get_ansi_color(bg, true);
                out.append(e.as_str());
            },
            None => {},
        }
        out.append(self.text.as_str());
        out.append("\x1b[0m");
        out
    }
}

/// What a [`Colorful`] renders to when colors are on: the escape for each
/// chosen attribute, the text, and the reset sequence.
pub open spec fn spec_rendered(c: Colorful) -> Seq<char> {
    let style_part = match c.style_view() {
        Some(style) => spec_ansi_escape(spec_style_code(style)),
        None => Seq::empty(),
    };
    let fg_part = match c.foreground_view() {
        Some(fg) => spec_ansi_escape(spec_color_code(fg, false)),
        None => Seq::empty(),
    };
    let bg_part = match c.background_view() {
        Some(bg) => spec_ansi_escape(spec_color_code(bg, true)),
        None => Seq::empty(),
    };
    style_part + fg_part + bg_part + c.text_view() + "\x1b[0m"@
}

/// The escape sequence that selects ANSI code `code`.
fn ansi_escape(code: u64) -> (r: String)
    ensures
        r@ == spec_ansi_escape(code as nat),
{
    let mut out: String = String::from_str("\x1b[");
    let digits = strutil::u64_to_string(code);
    out.append(digits.as_str());
    out.append("m");
    out
}

/// Color and style shorthands for anything that can become a [`Colorful`].
pub trait Colored {
    /// Wrap into a bare [`Colorful`].
    fn colored(&self) -> Colorful;

    /// Choose a style.
    fn style(&self, style: Style) -> Colorful {
        self.colored().style(style)
    }

    /// Choose a foreground color.
    fn foreground(&self, color: Color) -> Colorful {
        self.colored().foreground(color)
    }

    /// Choose a background color.
    fn background(&self, color: Color) -> Colorful {
        self.colored().background(color)
    }

    /// Default style, foreground and background, all at once.
    fn reset(&self) -> Colorful {
        self.colored().foreground(Color::Default).background(Color::Default).style(Style::Default)
    }

    /// Foreground Default.
    fn default(&self) -> Colorful {
        self.colored().foreground(Color::Default)
    }

    /// Foreground Black.
    fn black(&self) -> Colorful {
        self.colored().foreground(Color::Black)
    }

    /// Foreground Red.
    fn red(&self) -> Colorful {
        self.colored().foreground(Color::Red)
    }

    /// Foreground Green.
    fn green(&self) -> Colorful {
        self.colored().foreground(Color::Green)
    }

    /// Foreground Yellow.
    fn yellow(&self) -> Colorful {
        self.colored().foreground(Color::Yellow)
    }

    /// Foreground Blue.
    fn blue(&self) -> Colorful {
        self.colored().foreground(Color::Blue)
    }

    /// Foreground Magenta.
    fn magenta(&self) -> Colorful {
        self.colored().foreground(Color::Magenta)
    }

    /// Foreground Cyan.
    fn cyan(&self) -> Colorful {
        self.colored().foreground(Color::Cyan)
    }

    /// Foreground White.
    fn white(&self) -> Colorful {
        self.colored().foreground(Color::White)
    }

    /// Foreground BrightBlack.
    fn bright_black(&self) -> Colorful {
        self.colored().foreground(Color::BrightBlack)
    }

    /// Foreground BrightRed.
    fn bright_red(&self) -> Colorful {
        self.colored().foreground(Color::BrightRed)
    }

    /// Foreground BrightGreen.
    fn bright_green(&self) -> Colorful {
        self.colored().foreground(Color::BrightGreen)
    }

    /// Foreground BrightYellow.
    fn bright_yellow(&self) -> Colorful {
        self.colored().foreground(Color::BrightYellow)
    }

    /// Foreground BrightBlue.
    fn bright_blue(&self) -> Colorful {
        self.colored().foreground(Color::BrightBlue)
    }

    /// Foreground BrightMagenta.
    fn bright_magenta(&self) -> Colorful {
        self.colored().foreground(Color::BrightMagenta)
    }

    /// Foreground BrightCyan.
    fn bright_cyan(&self) -> Colorful {
        self.colored().foreground(Color::BrightCyan)
    }

    /// Foreground BrightWhite.
    fn bright_white(&self) -> Colorful {
        self.colored().foreground(Color::BrightWhite)
    }

    /// Background Default.
    fn default_background(&self) -> Colorful {
        self.colored().background(Color::Default)
    }

    /// Background Black.
    fn black_background(&self) -> Colorful {
        self.colored().background(Color::Black)
    }

    /// Background Red.
    fn red_background(&self) -> Colorful {
        self.colored().background(Color::Red)
    }

    /// Background Green.
    fn green_background(&self) -> Colorful {
        self.colored().background(Color::Green)
    }

    /// Background Yellow.
    fn yellow_background(&self) -> Colorful {
        self.colored().background(Color::Yellow)
    }

    /// Background Blue.
    fn blue_background(&self) -> Colorful {
        self.colored().background(Color::Blue)
    }

    /// Background Magenta.
    fn magenta_background(&self) -> Colorful {
        self.colored().background(Color::Magenta)
    }

    /// Background Cyan.
    fn cyan_background(&self) -> Colorful {
        self.colored().background(Color::Cyan)
    }

    /// Background White.
    fn white_background(&self) -> Colorful {
        self.colored().background(Color::White)
    }

    /// Background BrightBlack.
    fn bright_black_background(&self) -> Colorful {
        self.colored().background(Color::BrightBlack)
    }

    /// Background BrightRed.
    fn bright_red_background(&self) -> Colorful {
        self.colored().background(Color::BrightRed)
    }

    /// Background BrightGreen.
    fn bright_green_background(&self) -> Colorful {
        self.colored().background(Color::BrightGreen)
    }

    /// Background BrightYellow.
    fn bright_yellow_background(&self) -> Colorful {
        self.colored().background(Color::BrightYellow)
    }

    /// Background BrightBlue.
    fn bright_blue_background(&self) -> Colorful {
        self.colored().background(Color::BrightBlue)
    }

    /// Background BrightMagenta.
    fn bright_magenta_background(&self) -> Colorful {
        self.colored().background(Color::BrightMagenta)
    }

    /// Background BrightCyan.
    fn bright_cyan_background(&self) -> Colorful {
        self.colored().background(Color::BrightCyan)
    }

    /// Background BrightWhite.
    fn bright_white_background(&self) -> Colorful {
        self.colored().background(Color::BrightWhite)
    }

    /// Style Default.
    fn default_style(&self) -> Colorful {
        self.colored().style(Style::Default)
    }

    /// Style Bold.
    fn bold(&self) -> Colorful {
        self.colored().style(Style::Bold)
    }

    /// Style Dim.
    fn dim(&self) -> Colorful {
        self.colored().style(Style::Dim)
    }

    /// Style Italic.
    fn italic(&self) -> Colorful {
        self.colored().style(Style::Italic)
    }

    /// Style Underline.
    fn underline(&self) -> Colorful {
        self.colored().style(Style::Underline)
    }

    /// Style Blink.
    fn blink(&self) -> Colorful {
        self.colored().style(Style::Blink)
    }

    /// Style Reverse.
    fn reverse(&self) -> Colorful {
        self.colored().style(Style::Reverse)
    }

    /// Style Hidden.
    fn hidden(&self) -> Colorful {
        self.colored().style(Style::Hidden)
    }
}

impl Colored for str {
    /// Bare text.
    fn colored(&self) -> Colorful {
        Colorful::new(self)
    }
}

} // verus!
