//! Themes as their authors write them: a palette of named colours and
//! references into it.

use crate::ansi::{push_square, square};
use crate::color::{Color, ColorError, spec_parse_color};
use crate::text::{chars_of, same_text};
use vstd::prelude::*;

verus! {

/// The colours of a theme by name: eleven that every palette has, and the
/// theme's own. Two palettes are equal where every name denotes the same in
/// both.
#[derive(Debug, Clone, Eq)]
pub struct Palette {
    pub pink: Color,
    pub red: Color,
    pub orange: Color,
    pub yellow: Color,
    pub green: Color,
    pub teal: Color,
    pub blue: Color,
    pub purple: Color,
    pub brown: Color,
    pub black: Color,
    pub white: Color,
    /// The theme's own colours. A name is looked up in the first entry that
    /// carries it.
    pub custom: Vec<(String, Color)>,
}

/// Why a colour of a theme cannot be told.
#[derive(Debug, Clone, PartialEq, Eq)]
pub enum ThemeError {
    /// The palette has no colour of this name.
    UndefinedColor(String),
}

/// The colour of the first entry of `entries` named `name`.
pub open spec fn custom_color(entries: Seq<(String, Color)>, name: Seq<char>) -> Option<Color>
    decreases entries.len(),
{
    if entries.len() == 0 {
        None
    } else if entries[0].0@ == name {
        Some(entries[0].1)
    } else {
        custom_color(entries.drop_first(), name)
    }
}

/// The squares of the colours of `entries`, one after the other.
pub open spec fn custom_squares(entries: Seq<(String, Color)>) -> Seq<char>
    decreases entries.len(),
{
    if entries.len() == 0 {
        Seq::empty()
    } else {
        custom_squares(entries.drop_last()) + square(entries.last().1)
    }
}

impl Palette {
    /// The colour that `name` denotes in the palette: one of the eleven
    /// fixed names, else one of the theme's own.
    pub open spec fn spec_get(&self, name: Seq<char>) -> Option<Color> {
        if name == "pink"@ {
            Some(self.pink)
        } else if name == "red"@ {
            Some(self.red)
        } else if name == "orange"@ {
            Some(self.orange)
        } else if name == "yellow"@ {
            Some(self.yellow)
        } else if name == "green"@ {
            Some(self.green)
        } else if name == "teal"@ {
            Some(self.teal)
        } else if name == "blue"@ {
            Some(self.blue)
        } else if name == "purple"@ {
            Some(self.purple)
        } else if name == "brown"@ {
            Some(self.brown)
        } else if name == "black"@ {
            Some(self.black)
        } else if name == "white"@ {
            Some(self.white)
        } else {
            custom_color(self.custom@, name)
        }
    }

    fn get_custom(&self, name: &str) -> (found: Option<Color>)
        ensures
            found == custom_color(self.custom@, name@),
    {
        let key = name.to_owned();
        let mut i: usize = 0;
        assert(self.custom@.subrange(0, self.custom@.len() as int) =~= self.custom@);
        while i < self.custom.len()
            invariant
                i <= self.custom@.len(),
                key@ == name@,
                custom_color(self.custom@, name@) == custom_color(
                    self.custom@.subrange(i as int, self.custom@.len() as int),
                    name@,
                ),
            decreases self.custom.len() - i,
        {
            let ghost rest = self.custom@.subrange(i as int, self.custom@.len() as int);
            assert(rest[0] == self.custom@[i as int]);
            assert(rest.drop_first() =~= self.custom@.subrange(i + 1, self.custom@.len() as int));
            if self.custom[i].0 == key {
                return Some(self.custom[i].1);
            }
            i += 1;
        }
        None
    }

    /// The colour that `name` denotes in the palette.
    pub fn get(&self, name: &str) -> (result: Result<Color, ThemeError>)
        ensures
            match result {
                Ok(color) => self.spec_get(name@) == Some(color),
                Err(ThemeError::UndefinedColor(missing)) => self.spec_get(name@) is None
                    && missing@ == name@,
            },
    {
        if same_text(name, "pink") {
            Ok(self.pink)
        } else if same_text(name, "red") {
            Ok(self.red)
        } else if same_text(name, "orange") {
            Ok(self.orange)
        } else if same_text(name, "yellow") {
            Ok(self.yellow)
        } else if same_text(name, "green") {
            Ok(self.green)
        } else if same_text(name, "teal") {
            Ok(self.teal)
        } else if same_text(name, "blue") {
            Ok(self.blue)
        } else if same_text(name, "purple") {
            Ok(self.purple)
        } else if same_text(name, "brown") {
            Ok(self.brown)
        } else if same_text(name, "black") {
            Ok(self.black)
        } else if same_text(name, "white") {
            Ok(self.white)
        } else {
            match self.get_custom(name) {
                Some(color) => Ok(color),
                None => Err(ThemeError::UndefinedColor(name.to_owned())),
            }
        }
    }

    /// The palette as a row of squares: the eleven fixed colours, a blank,
    /// then the theme's own.
    pub open spec fn text(&self) -> Seq<char> {
        square(self.pink) + square(self.red) + square(self.orange) + square(self.yellow) + square(
            self.green,
        ) + square(self.teal) + square(self.blue) + square(self.purple) + square(self.brown)
            + square(self.black) + square(self.white) + seq![' '] + custom_squares(self.custom@)
    }

    /// The palette as a row of squares.
    pub fn to_string(&self) -> (s: String)
        ensures
            s@ == self.text(),
    {
        let mut s = String::new();
        push_square(&mut s, self.pink);
        push_square(&mut s, self.red);
        push_square(&mut s, self.orange);
        push_square(&mut s, self.yellow);
        push_square(&mut s, self.green);
        push_square(&mut s, self.teal);
        push_square(&mut s, self.blue);
        push_square(&mut s, self.purple);
        push_square(&mut s, self.brown);
        push_square(&mut s, self.black);
        push_square(&mut s, self.white);
        s.push(' ');
        let ghost fixed = s@;
        assert(fixed =~= square(self.pink) + square(self.red) + square(self.orange) + square(
            self.yellow,
        ) + square(self.green) + square(self.teal) + square(self.blue) + square(self.purple)
            + square(self.brown) + square(self.black) + square(self.white) + seq![' ']);
        let mut i: usize = 0;
        assert(s@ =~= fixed + custom_squares(self.custom@.subrange(0, 0)));
        while i < self.custom.len()
            invariant
                i <= self.custom@.len(),
                s@ == fixed + custom_squares(self.custom@.subrange(0, i as int)),
            decreases self.custom.len() - i,
        {
            push_square(&mut s, self.custom[i].1);
            i += 1;
            proof {
                let upto = self.custom@.subrange(0, i as int);
                assert(upto.drop_last() =~= self.custom@.subrange(0, i - 1));
                assert(s@ =~= fixed + custom_squares(upto));
            }
        }
        assert(self.custom@.subrange(0, i as int) =~= self.custom@);
        s
    }
}

/// A name that no entry carries denotes no colour.
proof fn lemma_no_custom_color(entries: Seq<(String, Color)>, name: Seq<char>)
    requires
        forall|j: int| 0 <= j < entries.len() ==> (#[trigger] entries[j]).0@ != name,
    ensures
        custom_color(entries, name) is None,
    decreases entries.len(),
{
    if entries.len() > 0 {
        assert(entries[0].0@ != name);
        assert forall|j: int| 0 <= j < entries.drop_first().len() implies (
        #[trigger] entries.drop_first()[j]).0@ != name by {
            assert(entries.drop_first()[j] == entries[j + 1]);
        }
        lemma_no_custom_color(entries.drop_first(), name);
    }
}

impl Palette {
    /// Whether the eleven fixed colours are the same in both palettes.
    pub open spec fn same_fixed(&self, other: &Palette) -> bool {
        &&& self.pink == other.pink
        &&& self.red == other.red
        &&& self.orange == other.orange
        &&& self.yellow == other.yellow
        &&& self.green == other.green
        &&& self.teal == other.teal
        &&& self.blue == other.blue
        &&& self.purple == other.purple
        &&& self.brown == other.brown
        &&& self.black == other.black
        &&& self.white == other.white
    }

    /// Whether every name denotes the same among the own colours of both
    /// palettes.
    pub open spec fn same_custom(&self, other: &Palette) -> bool {
        forall|name: Seq<char>| #[trigger]
            custom_color(self.custom@, name) == custom_color(other.custom@, name)
    }

    /// Whether the names of the own colours of `self` denote the same in
    /// `other`.
    fn agrees_on_own_names(&self, other: &Palette) -> (all: bool)
        ensures
            all == (forall|j: int|
                0 <= j < self.custom@.len() ==> custom_color(
                    self.custom@,
                    (#[trigger] self.custom@[j]).0@,
                ) == custom_color(other.custom@, self.custom@[j].0@)),
    {
        let mut i: usize = 0;
        while i < self.custom.len()
            invariant
                i <= self.custom@.len(),
                forall|j: int|
                    0 <= j < i ==> custom_color(self.custom@, (#[trigger] self.custom@[j]).0@)
                        == custom_color(other.custom@, self.custom@[j].0@),
            decreases self.custom.len() - i,
        {
            let name = self.custom[i].0.as_str();
            let same = match self.get_custom(name) {
                Some(here) => match other.get_custom(name) {
                    Some(there) => here == there,
                    None => false,
                },
                None => other.get_custom(name).is_none(),
            };
            if !same {
                return false;
            }
            i += 1;
        }
        true
    }
}

impl PartialEq for Palette {
    fn eq(&self, other: &Palette) -> (same: bool) {
        let fixed = self.pink == other.pink && self.red == other.red && self.orange
            == other.orange && self.yellow == other.yellow && self.green == other.green
            && self.teal == other.teal && self.blue == other.blue && self.purple == other.purple
            && self.brown == other.brown && self.black == other.black && self.white
            == other.white;
        let here = self.agrees_on_own_names(other);
        let there = other.agrees_on_own_names(self);
        proof {
            if here && there {
                assert forall|name: Seq<char>| #[trigger]
                    custom_color(self.custom@, name) == custom_color(other.custom@, name) by {
                    if exists|j: int|
                        0 <= j < self.custom@.len() && (#[trigger] self.custom@[j]).0@ == name {
                        let j = choose|j: int|
                            0 <= j < self.custom@.len() && (#[trigger] self.custom@[j]).0@
                                == name;
                    } else if exists|j: int|
                        0 <= j < other.custom@.len() && (#[trigger] other.custom@[j]).0@ == name {
                        let j = choose|j: int|
                            0 <= j < other.custom@.len() && (#[trigger] other.custom@[j]).0@
                                == name;
                    } else {
                        lemma_no_custom_color(self.custom@, name);
                        lemma_no_custom_color(other.custom@, name);
                    }
                }
            }
        }
        fixed && here && there
    }
}

impl vstd::std_specs::cmp::PartialEqSpecImpl for Palette {
    open spec fn obeys_eq_spec() -> bool {
        true
    }

    open spec fn eq_spec(&self, other: &Palette) -> bool {
        self.same_fixed(other) && self.same_custom(other)
    }
}

/// A colour of a theme: one of the palette, by name, or one given outright.
#[derive(Debug, Clone, PartialEq, Eq)]
pub enum ColorRef {
    Named(String),
    Exact(Color),
}

/// The mathematical content of a [`ColorRef`].
pub enum ColorRefView {
    Named(Seq<char>),
    Exact(Color),
}

impl View for ColorRef {
    type V = ColorRefView;

    open spec fn view(&self) -> ColorRefView {
        match self {
            ColorRef::Named(name) => ColorRefView::Named(name@),
            ColorRef::Exact(color) => ColorRefView::Exact(*color),
        }
    }
}

/// The reference that a text denotes: a colour given outright where the
/// text begins with `#`, else the name of a colour.
pub open spec fn spec_parse_color_ref(text: Seq<char>) -> Result<ColorRefView, ColorError> {
    if text.len() > 0 && text[0] == '#' {
        match spec_parse_color(text) {
            Ok(color) => Ok(ColorRefView::Exact(color)),
            Err(e) => Err(e),
        }
    } else {
        Ok(ColorRefView::Named(text))
    }
}

impl ColorRef {
    /// The reference to the colour `name` of the palette.
    pub fn named(name: &str) -> (reference: Self)
        ensures
            reference@ == ColorRefView::Named(name@),
    {
        ColorRef::Named(name.to_owned())
    }

    /// The colour that the reference denotes in `palette`.
    pub fn resolve(&self, palette: &Palette) -> (result: Result<Color, ThemeError>)
        ensures
            match self@ {
                ColorRefView::Exact(color) => result == Ok::<Color, ThemeError>(color),
                ColorRefView::Named(name) => match result {
                    Ok(color) => palette.spec_get(name) == Some(color),
                    Err(ThemeError::UndefinedColor(missing)) => palette.spec_get(name) is None
                        && missing@ == name,
                },
            },
    {
        match self {
            ColorRef::Named(name) => palette.get(name.as_str()),
            ColorRef::Exact(color) => Ok(*color),
        }
    }

    /// The text of the reference: the name, or the text of the colour.
    pub fn to_string(&self) -> (s: String)
        ensures
            s@ == match self@ {
                ColorRefView::Named(name) => name,
                ColorRefView::Exact(color) => crate::color::color_text(color),
            },
    {
        match self {
            ColorRef::Named(name) => name.clone(),
            ColorRef::Exact(color) => color.to_string(),
        }
    }

    /// The reference that `text` denotes.
    pub fn from_str(text: &str) -> (result: Result<ColorRef, ColorError>)
        ensures
            match result {
                Ok(reference) => spec_parse_color_ref(text@) == Ok::<ColorRefView, ColorError>(
                    reference@,
                ),
                Err(e) => spec_parse_color_ref(text@) == Err::<ColorRefView, ColorError>(e),
            },
    {
        let chars = chars_of(text);
        if chars.len() > 0 && chars[0] == '#' {
            match Color::from_str(text) {
                Ok(color) => Ok(ColorRef::Exact(color)),
                Err(e) => Err(e),
            }
        } else {
            Ok(ColorRef::Named(text.to_owned()))
        }
    }
}

impl From<Color> for ColorRef {
    fn from(color: Color) -> (reference: ColorRef) {
        ColorRef::Exact(color)
    }
}

impl vstd::std_specs::convert::FromSpecImpl<Color> for ColorRef {
    open spec fn obeys_from_spec() -> bool {
        true
    }

    open spec fn from_spec(color: Color) -> ColorRef {
        ColorRef::Exact(color)
    }
}

/// Whether a theme is light or dark.
#[derive(Debug, Clone, Copy, PartialEq, Eq, Structural)]
pub enum UiThemeKind {
    Light,
    Dark,
}

impl UiThemeKind {
    /// `light` or `dark`.
    pub fn to_string(&self) -> (s: String)
        ensures
            s@ == match self {
                UiThemeKind::Light => "light"@,
                UiThemeKind::Dark => "dark"@,
            },
    {
        match self {
            UiThemeKind::Light => "light".to_owned(),
            UiThemeKind::Dark => "dark".to_owned(),
        }
    }
}

/// The colours of the user interface, resolved.
#[derive(Debug, Clone, PartialEq, Eq)]
pub struct UiTheme {
    pub kind: UiThemeKind,
    pub background: Color,
    pub on_background: Color,
    pub surface: Color,
    pub on_surface: Color,
    pub border: Color,
    pub shadow: Color,
    pub text_light: Color,
    pub text_dark: Color,
    pub success: Color,
    pub on_success: Color,
    pub warning: Color,
    pub on_warning: Color,
    pub error: Color,
    pub on_error: Color,
}

} // verus!
