use vstd::prelude::*;

verus! {

/// A named terminal colour. The drawing layer maps these onto whatever
/// palette the backend offers; the engine itself only stores and compares
/// them.
#[derive(Debug, Clone, Copy, PartialEq, Eq, Structural)]
pub enum Color {
    Black,
    DarkGrey,
    Red,
    DarkRed,
    Green,
    DarkGreen,
    Yellow,
    DarkYellow,
    Blue,
    DarkBlue,
    Magenta,
    DarkMagenta,
    Cyan,
    DarkCyan,
    White,
    Grey,
}

/// The visual attributes a run of text is drawn with: an optional foreground
/// colour, an optional background colour, and a bold flag. A `None` colour
/// means the terminal default.
#[derive(Debug, Clone, Copy, PartialEq, Eq, Structural)]
pub struct Style {
    pub fg: Option<Color>,
    pub bg: Option<Color>,
    pub bold: bool,
}

impl Style {
    /// The style value `Default::default()` returns: no colours, not bold.
    pub open spec fn spec_default() -> Style {
        Style { fg: None, bg: None, bold: false }
    }

    /// Same style with the foreground colour replaced.
    pub fn with(self, fg: Color) -> (r: Style)
        ensures
            r == (Style { fg: Some(fg), ..self }),
    {
        Style { fg: Some(fg), ..self }
    }

    /// Same style with the background colour replaced.
    pub fn on(self, bg: Color) -> (r: Style)
        ensures
            r == (Style { bg: Some(bg), ..self }),
    {
        Style { bg: Some(bg), ..self }
    }

    /// Same style with the bold attribute set.
    pub fn bold(self) -> (r: Style)
        ensures
            r == (Style { bold: true, ..self }),
    {
        Style { bold: true, ..self }
    }
}

impl Default for Style {
    fn default() -> (r: Style)
        ensures
            r == Style::spec_default(),
    {
        Style { fg: None, bg: None, bold: false }
    }
}

} // verus!
