//! A desktop theming toolkit: a Mustache-style template engine with
//! redefinable delimiters and typed, formattable values, together with the
//! colour, theme, configuration and state rules that are built around it.
//!
//! The template engine: [`parse`] turns the text of a template into a
//! [`Template`], [`Template::render`] renders it against a [`Value`]. The
//! grammar is written down in [`grammar`], the meaning of rendering in
//! [`render`], and what holds of both together in [`laws`].

pub mod fmt;
pub mod formats;
pub mod grammar;
pub mod laws;
pub mod parse;
pub mod render;
pub mod scanner;
pub mod template;
pub mod text;
pub mod value;

pub mod ansi;
pub mod artifact;
pub mod color;
pub mod config;
pub mod console;
pub mod file_manager;
pub mod files;
pub mod managed_fs;
pub mod module_manager;
pub mod paths;
pub mod state_manager;
pub mod theme;
pub mod theme_manager;

pub use color::Color;
pub use fmt::{FmtError, FmtValue, Format, FormatExt};
pub use parse::{parse, ParseError, ParseErrorKind};
pub use render::RenderError;
pub use template::{Insert, Name, Section, SetFmt, Template, Token};
pub use value::Value;
