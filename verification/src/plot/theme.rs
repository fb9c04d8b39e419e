//! Configure the Plotter

use crate::gr::Color;
use crate::strings::str_eq;
use crate::{Error, ErrorKind};
use vstd::prelude::*;
use vstd::std_specs::convert::FromSpecImpl;

verus! {

/// The themes.
#[derive(Debug, Clone, Copy, PartialEq, Eq, Structural)]
pub enum Themes {
    Kicad2020,
}

impl From<String> for Themes {
    fn from(str: String) -> (r: Self) {
        Self::Kicad2020
    }
}

impl FromSpecImpl<String> for Themes {
    open spec fn obeys_from_spec() -> bool {
        true
    }

    open spec fn from_spec(s: String) -> Self {
        Themes::Kicad2020
    }
}

/// What is drawn, as far as a theme tells things apart.
#[derive(Debug, Clone, Copy, PartialEq, Eq, Structural, Hash)]
pub enum Style {
    Background,
    Wire,
    Junction,
    NoConnect,
    Outline,
    Property,
    Label,
    Todo,
}

impl Style {
    /// The style that a name stands for: `Wire` for an unknown one.
    pub open spec fn from_name_spec(s: Seq<char>) -> Style {
        if s == "background"@ {
            Style::Background
        } else if s == "wire"@ {
            Style::Wire
        } else if s == "junction"@ {
            Style::Junction
        } else if s == "noconnect"@ {
            Style::NoConnect
        } else if s == "outline"@ {
            Style::Outline
        } else if s == "property"@ {
            Style::Property
        } else if s == "todo"@ {
            Style::Todo
        } else {
            Style::Wire
        }
    }

    /// The name of a style.
    pub open spec fn name_spec(self) -> Seq<char> {
        match self {
            Self::Background => "background"@,
            Self::Wire => "wire"@,
            Self::Junction => "junction"@,
            Self::NoConnect => "noconnect"@,
            Self::Outline => "outline"@,
            Self::Property => "property"@,
            Self::Label => "label"@,
            Self::Todo => "todo"@,
        }
    }

    /// The name of the style.
    pub fn to_string(&self) -> (r: String)
        ensures
            r@ == self.name_spec(),
    {
        match self {
            Self::Background => "background".to_string(),
            Self::Wire => "wire".to_string(),
            Self::Junction => "junction".to_string(),
            Self::NoConnect => "noconnect".to_string(),
            Self::Outline => "outline".to_string(),
            Self::Property => "property".to_string(),
            Self::Label => "label".to_string(),
            Self::Todo => "todo".to_string(),
        }
    }
}

impl From<String> for Style {
    fn from(str: String) -> (r: Self) {
        let s = str.as_str();
        if str_eq(s, "background") {
            Self::Background
        } else if str_eq(s, "wire") {
            Self::Wire
        } else if str_eq(s, "junction") {
            Self::Junction
        } else if str_eq(s, "noconnect") {
            Self::NoConnect
        } else if str_eq(s, "outline") {
            Self::Outline
        } else if str_eq(s, "property") {
            Self::Property
        } else if str_eq(s, "todo") {
            Self::Todo
        } else {
            Self::Wire
        }
    }
}

impl FromSpecImpl<String> for Style {
    open spec fn obeys_from_spec() -> bool {
        true
    }

    open spec fn from_spec(s: String) -> Self {
        Style::from_name_spec(s@)
    }
}

/// The stroke color that the theme has for a style.
pub open spec fn theme_color(style: Style) -> Option<Color> {
    match style {
        Style::Wire => Some(Color::Rgba(0, 150, 0, 255)),
        Style::NoConnect => Some(Color::Rgba(0, 0, 132, 255)),
        Style::Junction => Some(Color::Rgba(0, 150, 0, 255)),
        Style::Outline => Some(Color::Rgba(132, 0, 0, 1)),
        Style::Property => Some(Color::Rgba(5, 105, 12, 255)),
        _ => None,
    }
}

/// The fill color that the theme has for a style.
pub open spec fn theme_fill(style: Style) -> Option<Color> {
    match style {
        Style::Background => Some(Color::Rgba(255, 255, 194, 255)),
        Style::Outline => Some(Color::Rgba(200, 98, 194, 255)),
        _ => None,
    }
}

/// The stroke width that the theme has for a style.
pub open spec fn theme_width(style: Style) -> Option<i32> {
    match style {
        Style::Wire => Some(3500i32),
        Style::NoConnect => Some(2500i32),
        Style::Junction => Some(1000i32),
        Style::Outline => Some(3500i32),
        _ => None,
    }
}

/// The font size that the theme has for a style.
pub open spec fn theme_font_size(style: Style) -> Option<(i32, i32)> {
    match style {
        Style::Property => Some((17500i32, 17500i32)),
        Style::Label => Some((17500i32, 17500i32)),
        _ => None,
    }
}

/// The colors, widths and font sizes of a drawing.
#[derive(Debug, Clone, Copy)]
pub struct Theme {
    /// The theme that the values are taken from.
    pub theme: Themes,
}

impl From<Themes> for Theme {
    fn from(theme: Themes) -> (r: Self) {
        Self { theme }
    }
}

impl FromSpecImpl<Themes> for Theme {
    open spec fn obeys_from_spec() -> bool {
        true
    }

    open spec fn from_spec(theme: Themes) -> Self {
        Theme { theme }
    }
}

impl Theme {
    /// get the font face
    pub fn face(&self) -> (r: String)
        ensures
            r@ == "osifont"@,
    {
        "osifont".to_string()
    }

    /// The font size for a style: the size given unless its width is 0, then
    /// the size of the theme.
    ///
    /// Fails with `Theme` if the theme has no size for the style.
    pub fn font_size(&self, size: (i32, i32), style: Style) -> (r: Result<(i32, i32), Error>)
        ensures
            match r {
                Ok(s) => if size.0 == 0 {
                    theme_font_size(style) == Some(s)
                } else {
                    s == size
                },
                Err(e) => size.0 == 0 && theme_font_size(style) is None && e.0 == ErrorKind::Theme,
            },
    {
        if size.0 == 0 {
            match style {
                Style::Property => Ok((17500, 17500)),
                Style::Label => Ok((17500, 17500)),
                _ => Err(Error::new(ErrorKind::Theme, "the theme has no font size for the style")),
            }
        } else {
            Ok(size)
        }
    }

    /// Get the color for the style: the color given, if there is one, else
    /// the color of the theme.
    ///
    /// Fails with `Theme` if there is neither.
    pub fn color(&self, color: Option<Color>, style: Style) -> (r: Result<Color, Error>)
        ensures
            match r {
                Ok(c) => match color {
                    Some(given) => c == given,
                    None => theme_color(style) == Some(c),
                },
                Err(e) => color is None && theme_color(style) is None && e.0 == ErrorKind::Theme,
            },
    {
        if let Some(color) = color {
            Ok(color)
        } else {
            match style {
                Style::Wire => Ok(Color::Rgba(0, 150, 0, 255)),
                Style::NoConnect => Ok(Color::Rgba(0, 0, 132, 255)),
                Style::Junction => Ok(Color::Rgba(0, 150, 0, 255)),
                Style::Outline => Ok(Color::Rgba(132, 0, 0, 1)),
                Style::Property => Ok(Color::Rgba(5, 105, 12, 255)),
                _ => Err(Error::new(ErrorKind::Theme, "the theme has no color for the style")),
            }
        }
    }

    /// Get the fill color for the style: the color given, if there is one,
    /// else the fill color of the theme.
    ///
    /// Fails with `Theme` if there is neither.
    pub fn fill(&self, color: Option<Color>, style: Style) -> (r: Result<Color, Error>)
        ensures
            match r {
                Ok(c) => match color {
                    Some(given) => c == given,
                    None => theme_fill(style) == Some(c),
                },
                Err(e) => color is None && theme_fill(style) is None && e.0 == ErrorKind::Theme,
            },
    {
        if let Some(color) = color {
            Ok(color)
        } else {
            match style {
                Style::Background => Ok(Color::Rgba(255, 255, 194, 255)),
                Style::Outline => Ok(Color::Rgba(200, 98, 194, 255)),
                _ => Err(Error::new(ErrorKind::Theme, "the theme has no fill for the style")),
            }
        }
    }

    /// Get the stroke width for the style: the width of the theme, whatever
    /// width is given.
    ///
    /// Fails with `Theme` if the theme has no width for the style.
    pub fn width(&self, width: i32, style: Style) -> (r: Result<i32, Error>)
        ensures
            match r {
                Ok(w) => theme_width(style) == Some(w),
                Err(e) => theme_width(style) is None && e.0 == ErrorKind::Theme,
            },
    {
        match style {
            Style::Wire => Ok(3500),
            Style::NoConnect => Ok(2500),
            Style::Junction => Ok(1000),
            Style::Outline => Ok(3500),
            _ => Err(Error::new(ErrorKind::Theme, "the theme has no width for the style")),
        }
    }
}

} // verus!
