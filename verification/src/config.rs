//! Themes as modules receive them, and the part of the configuration that
//! decides what is reloaded.

use crate::ansi::{push_sample, push_square, sample, square};
use crate::color::Color;
use crate::text::texts;
use vstd::prelude::*;

verus! {

/// Whether a theme is meant to be light or dark.
#[derive(Debug, Clone, Copy, PartialEq, Eq, Structural)]
pub enum ColorScheme {
    Light,
    Dark,
}

impl ColorScheme {
    /// `light` or `dark`.
    pub open spec fn text(self) -> Seq<char> {
        match self {
            ColorScheme::Light => "light"@,
            ColorScheme::Dark => "dark"@,
        }
    }

    /// `light` or `dark`.
    pub fn to_string(&self) -> (s: String)
        ensures
            s@ == self.text(),
    {
        match self {
            ColorScheme::Light => "light".to_owned(),
            ColorScheme::Dark => "dark".to_owned(),
        }
    }
}

/// The colours of the user interface.
#[derive(Debug, Clone, PartialEq, Eq)]
pub struct UiTheme {
    pub color_scheme: ColorScheme,
    pub background: Color,
    pub surface: Color,
    pub primary: Color,
    pub secondary: Color,
    pub border: Color,
    pub shadow: Color,
    pub text_background: Color,
    pub text_surface: Color,
    pub text_primary: Color,
    pub success: Color,
    pub info: Color,
    pub warning: Color,
    pub error: Color,
    pub text_success: Color,
    pub text_info: Color,
    pub text_warning: Color,
    pub text_error: Color,
}

impl UiTheme {
    /// The first lines of the preview: the scheme and the main surfaces.
    pub open spec fn surfaces_text(&self) -> Seq<char> {
        "Color scheme: "@ + self.color_scheme.text() + seq!['\n'] + sample(
            "Background"@,
            self.background,
            self.text_background,
        ) + seq!['\n'] + sample("Surface"@, self.surface, self.text_surface) + seq!['\n'] + sample(
            "Primary"@,
            self.primary,
            self.text_primary,
        ) + seq!['\n'] + "Secondary: "@ + square(self.secondary) + seq!['\n'] + "Border: "@
            + square(self.border) + seq!['\n']
    }

    /// The last lines of the preview: information, warning and error.
    pub open spec fn notices_text(&self) -> Seq<char> {
        seq!['\n'] + sample("Info"@, self.info, self.text_info) + seq!['\n'] + sample(
            "Warning"@,
            self.warning,
            self.text_warning,
        ) + seq!['\n'] + sample("Error"@, self.error, self.text_error) + seq!['\n']
    }

    /// The preview of the theme, for a terminal.
    pub open spec fn text(&self) -> Seq<char> {
        self.surfaces_text() + self.notices_text()
    }

    fn push_surfaces(&self, buf: &mut String)
        ensures
            final(buf)@ == old(buf)@ + self.surfaces_text(),
    {
        buf.append("Color scheme: ");
        buf.append(self.color_scheme.to_string().as_str());
        buf.push('\n');
        push_sample(buf, "Background", self.background, self.text_background);
        buf.push('\n');
        push_sample(buf, "Surface", self.surface, self.text_surface);
        buf.push('\n');
        push_sample(buf, "Primary", self.primary, self.text_primary);
        buf.push('\n');
        buf.append("Secondary: ");
        push_square(buf, self.secondary);
        buf.push('\n');
        buf.append("Border: ");
        push_square(buf, self.border);
        buf.push('\n');
        assert(buf@ =~= old(buf)@ + self.surfaces_text());
    }

    fn push_notices(&self, buf: &mut String)
        ensures
            final(buf)@ == old(buf)@ + self.notices_text(),
    {
        buf.push('\n');
        push_sample(buf, "Info", self.info, self.text_info);
        buf.push('\n');
        push_sample(buf, "Warning", self.warning, self.text_warning);
        buf.push('\n');
        push_sample(buf, "Error", self.error, self.text_error);
        buf.push('\n');
        assert(buf@ =~= old(buf)@ + self.notices_text());
    }

    /// The preview of the theme, for a terminal.
    pub fn to_string(&self) -> (s: String)
        ensures
            s@ == self.text(),
    {
        let mut s = String::new();
        self.push_surfaces(&mut s);
        self.push_notices(&mut s);
        assert(s@ =~= self.text());
        s
    }
}

/// The sixteen colours of a terminal.
#[derive(Debug, Clone, PartialEq, Eq)]
pub struct Terminal {
    pub black: Color,
    pub red: Color,
    pub green: Color,
    pub yellow: Color,
    pub blue: Color,
    pub magenta: Color,
    pub cyan: Color,
    pub white: Color,
    pub bright_black: Color,
    pub bright_red: Color,
    pub bright_green: Color,
    pub bright_yellow: Color,
    pub bright_blue: Color,
    pub bright_magenta: Color,
    pub bright_cyan: Color,
    pub bright_white: Color,
}

impl Terminal {
    /// The row of the eight normal colours.
    pub open spec fn normal_text(&self) -> Seq<char> {
        square(self.black) + square(self.red) + square(self.green) + square(self.yellow) + square(
            self.blue,
        ) + square(self.magenta) + square(self.cyan) + square(self.white)
    }

    /// The row of the eight bright colours.
    pub open spec fn bright_text(&self) -> Seq<char> {
        square(self.bright_black) + square(self.bright_red) + square(self.bright_green) + square(
            self.bright_yellow,
        ) + square(self.bright_blue) + square(self.bright_magenta) + square(self.bright_cyan)
            + square(self.bright_white)
    }

    /// The colours as two rows of squares.
    pub open spec fn text(&self) -> Seq<char> {
        self.normal_text() + seq!['\n'] + self.bright_text()
    }

    fn push_normal(&self, buf: &mut String)
        ensures
            final(buf)@ == old(buf)@ + self.normal_text(),
    {
        push_square(buf, self.black);
        push_square(buf, self.red);
        push_square(buf, self.green);
        push_square(buf, self.yellow);
        push_square(buf, self.blue);
        push_square(buf, self.magenta);
        push_square(buf, self.cyan);
        push_square(buf, self.white);
        assert(buf@ =~= old(buf)@ + self.normal_text());
    }

    fn push_bright(&self, buf: &mut String)
        ensures
            final(buf)@ == old(buf)@ + self.bright_text(),
    {
        push_square(buf, self.bright_black);
        push_square(buf, self.bright_red);
        push_square(buf, self.bright_green);
        push_square(buf, self.bright_yellow);
        push_square(buf, self.bright_blue);
        push_square(buf, self.bright_magenta);
        push_square(buf, self.bright_cyan);
        push_square(buf, self.bright_white);
        assert(buf@ =~= old(buf)@ + self.bright_text());
    }

    /// The colours as two rows of squares.
    pub fn to_string(&self) -> (s: String)
        ensures
            s@ == self.text(),
    {
        let mut s = String::new();
        self.push_normal(&mut s);
        s.push('\n');
        self.push_bright(&mut s);
        assert(s@ =~= self.text());
        s
    }
}

/// A theme: the colours of the user interface and of the terminal.
#[derive(Debug, Clone, PartialEq, Eq)]
pub struct Theme {
    pub name: Option<String>,
    pub ui: UiTheme,
    pub terminal: Terminal,
}

impl Theme {
    /// The preview of the theme: that of the user interface, then that of
    /// the terminal.
    pub open spec fn text(&self) -> Seq<char> {
        self.ui.text() + seq!['\n'] + self.terminal.text()
    }

    /// The preview of the theme, for a terminal.
    pub fn to_string(&self) -> (s: String)
        ensures
            s@ == self.text(),
    {
        let mut s = self.ui.to_string();
        s.push('\n');
        s.append(self.terminal.to_string().as_str());
        s
    }
}

/// The modules that are not reloaded after a theme was applied.
#[derive(Debug, Clone, PartialEq, Eq)]
pub enum DisableReloads {
    Nothing,
    All,
    Blacklist(Vec<String>),
}

impl Default for DisableReloads {
    fn default() -> (disabled: DisableReloads)
        ensures
            disabled == DisableReloads::Nothing,
    {
        DisableReloads::Nothing
    }
}

impl DisableReloads {
    /// Whether reloading is disabled for the module `name`.
    pub open spec fn spec_is_disabled(&self, name: Seq<char>) -> bool {
        match self {
            DisableReloads::Nothing => false,
            DisableReloads::All => true,
            DisableReloads::Blacklist(blacklist) => texts(blacklist@).contains(name),
        }
    }

    /// Whether reloading is disabled for the module `name`.
    pub fn is_disabled(&self, name: &str) -> (disabled: bool)
        ensures
            disabled == self.spec_is_disabled(name@),
    {
        match self {
            DisableReloads::Nothing => false,
            DisableReloads::All => true,
            DisableReloads::Blacklist(blacklist) => {
                let wanted = name.to_owned();
                let mut i: usize = 0;
                while i < blacklist.len()
                    invariant
                        i <= blacklist@.len(),
                        wanted@ == name@,
                        *self == DisableReloads::Blacklist(*blacklist),
                        forall|j: int| 0 <= j < i ==> texts(blacklist@)[j] != name@,
                    decreases blacklist.len() - i,
                {
                    if blacklist[i] == wanted {
                        assert(texts(blacklist@)[i as int] == name@);
                        assert(texts(blacklist@).contains(name@));
                        return true;
                    }
                    i += 1;
                }
                false
            },
        }
    }
}

} // verus!
