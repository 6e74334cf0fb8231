//! What the user chose: the theme and the accent colour.

use vstd::prelude::*;

verus! {

/// The user's choices.
#[derive(Debug, Clone, PartialEq, Eq)]
pub struct State {
    pub theme: Option<String>,
    pub accent: Option<String>,
}

impl Default for State {
    fn default() -> (state: State)
        ensures
            state.theme is None,
            state.accent is None,
    {
        State { theme: None, accent: None }
    }
}

/// Why a choice cannot be told.
#[derive(Debug, Clone, Copy, PartialEq, Eq, Structural)]
pub enum StateError {
    /// No theme is set.
    NoTheme,
    /// No accent colour is set.
    NoAccent,
}

impl StateError {
    /// The text of the error, with the command that mends it.
    pub fn message(&self) -> (s: String)
        ensures
            s@ == match self {
                StateError::NoTheme => "No theme set; use `niji theme set <name>` to specify a theme."@,
                StateError::NoAccent => "No accent color set; use `niji accent set <name>` to specify an accent color."@,
            },
    {
        match self {
            StateError::NoTheme => "No theme set; use `niji theme set <name>` to specify a theme.".to_owned(),
            StateError::NoAccent => "No accent color set; use `niji accent set <name>` to specify an accent color.".to_owned(),
        }
    }
}

/// Keeps the user's choices. Whoever changes them writes them down
/// afterwards.
#[derive(Debug)]
pub struct StateManager {
    state: State,
}

/// The text of an optional string.
pub open spec fn text_of(value: Option<String>) -> Option<Seq<char>> {
    match value {
        Some(s) => Some(s@),
        None => None,
    }
}

impl StateManager {
    /// The chosen theme.
    pub closed spec fn theme(&self) -> Option<Seq<char>> {
        text_of(self.state.theme)
    }

    /// The chosen accent colour.
    pub closed spec fn accent(&self) -> Option<Seq<char>> {
        text_of(self.state.accent)
    }

    /// The manager of the choices `state`, as they were last written down.
    pub fn new(state: State) -> (manager: Self)
        ensures
            manager.theme() == text_of(state.theme),
            manager.accent() == text_of(state.accent),
    {
        StateManager { state }
    }

    /// The choices, to be written down.
    pub fn state(&self) -> (state: &State)
        ensures
            text_of(state.theme) == self.theme(),
            text_of(state.accent) == self.accent(),
    {
        &self.state
    }

    pub fn get_theme(&self) -> (result: Result<&str, StateError>)
        ensures
            match result {
                Ok(theme) => self.theme() == Some(theme@),
                Err(e) => self.theme() is None && e == StateError::NoTheme,
            },
    {
        match &self.state.theme {
            Some(theme) => Ok(theme.as_str()),
            None => Err(StateError::NoTheme),
        }
    }

    pub fn get_accent(&self) -> (result: Result<&str, StateError>)
        ensures
            match result {
                Ok(accent) => self.accent() == Some(accent@),
                Err(e) => self.accent() is None && e == StateError::NoAccent,
            },
    {
        match &self.state.accent {
            Some(accent) => Ok(accent.as_str()),
            None => Err(StateError::NoAccent),
        }
    }

    pub fn set_theme(&mut self, theme: String)
        ensures
            final(self).theme() == Some(theme@),
            final(self).accent() == old(self).accent(),
    {
        self.state.theme = Some(theme);
    }

    pub fn set_accent(&mut self, accent: String)
        ensures
            final(self).accent() == Some(accent@),
            final(self).theme() == old(self).theme(),
    {
        self.state.accent = Some(accent);
    }

    pub fn unset_theme(&mut self)
        ensures
            final(self).theme() is None,
            final(self).accent() == old(self).accent(),
    {
        self.state.theme = None;
    }

    pub fn unset_accent(&mut self)
        ensures
            final(self).accent() is None,
            final(self).theme() == old(self).theme(),
    {
        self.state.accent = None;
    }
}

} // verus!
