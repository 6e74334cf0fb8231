//! Where the program keeps its files, below the base directories of the
//! desktop.

use crate::paths::{file_name, file_stem, join, joined_path, last_component, stem};
use crate::text::texts;
use vstd::prelude::*;

verus! {

/// The base directories of the desktop.
#[derive(Debug, Clone, PartialEq, Eq)]
pub struct XdgDirs {
    pub config_home: String,
    pub data_home: String,
    pub state_home: String,
    pub data_dirs: Vec<String>,
}

/// The number of characters from `at` up to the next `:` or the end.
pub open spec fn entry_length(text: Seq<char>, at: int) -> nat
    decreases text.len() - at,
{
    if 0 <= at < text.len() && text[at] != ':' {
        1 + entry_length(text, at + 1)
    } else {
        0
    }
}

/// The entries of a list of paths from `at` on: what stands between the
/// colons, without the empty entries.
pub open spec fn path_entries(text: Seq<char>, at: int) -> Seq<Seq<char>>
    decreases text.len() - at,
{
    if at < 0 || at >= text.len() {
        Seq::empty()
    } else {
        let length = entry_length(text, at);
        if length == 0 {
            path_entries(text, at + 1)
        } else {
            seq![text.subrange(at, at + length)] + if at + length < text.len() {
                path_entries(text, at + length + 1)
            } else {
                Seq::empty()
            }
        }
    }
}

/// The value of a variable of the environment that is set to something.
pub open spec fn set_to(value: Option<String>) -> Option<Seq<char>> {
    match value {
        Some(text) => if text@.len() > 0 {
            Some(text@)
        } else {
            None
        },
        None => None,
    }
}

/// The directory that a variable names, or `fallback` below the home
/// directory where the variable is not set or empty.
pub open spec fn base_dir(value: Option<String>, home: Seq<char>, fallback: Seq<char>) -> Seq<
    char,
> {
    match set_to(value) {
        Some(dir) => dir,
        None => joined_path(home, fallback),
    }
}

/// Computes [`path_entries`].
pub fn split_paths(list: &str) -> (entries: Vec<String>)
    ensures
        texts(entries@) == path_entries(list@, 0),
{
    let text = crate::text::chars_of(list);
    let mut entries: Vec<String> = Vec::new();
    let mut at: usize = 0;
    assert(texts(entries@) =~= Seq::<Seq<char>>::empty());
    assert(texts(entries@) + path_entries(text@, 0) =~= path_entries(text@, 0));
    while at < text.len()
        invariant
            at <= text@.len(),
            text@ == list@,
            texts(entries@) + path_entries(text@, at as int) == path_entries(text@, 0),
        decreases text.len() - at,
    {
        let mut end = at;
        while end < text.len() && text[end] != ':'
            invariant
                at <= end <= text@.len(),
                entry_length(text@, at as int) == (end - at) + entry_length(text@, end as int),
            decreases text.len() - end,
        {
            end += 1;
        }
        let ghost before = texts(entries@);
        let ghost rest = if end < text@.len() {
            path_entries(text@, end + 1)
        } else {
            Seq::<Seq<char>>::empty()
        };
        if end > at {
            let entry = crate::text::string_of(&text, at, end);
            entries.push(entry);
            assert(texts(entries@) =~= before + seq![text@.subrange(at as int, end as int)]);
            assert(texts(entries@) + rest =~= before + (seq![
                text@.subrange(at as int, end as int),
            ] + rest));
        }
        if end < text.len() {
            at = end + 1;
        } else {
            at = end;
        }
    }
    assert(texts(entries@) + Seq::<Seq<char>>::empty() =~= texts(entries@));
    entries
}

fn base_dir_of(value: Option<String>, home: &str, fallback: &str) -> (dir: String)
    ensures
        dir@ == base_dir(value, home@, fallback@),
{
    match value {
        Some(dir) => {
            if dir.as_str().unicode_len() > 0 {
                dir
            } else {
                join(home, fallback)
            }
        },
        None => join(home, fallback),
    }
}

impl XdgDirs {
    /// The base directories that the environment names: `home` is the home
    /// directory, the others are the variables for the configuration, the
    /// data, the state and the list of further data directories. A variable
    /// that is not set or empty gives way to its default.
    pub fn from_environment(
        home: &str,
        config_home: Option<String>,
        data_home: Option<String>,
        state_home: Option<String>,
        data_dirs: Option<String>,
    ) -> (dirs: XdgDirs)
        ensures
            dirs.config_home@ == base_dir(config_home, home@, ".config"@),
            dirs.data_home@ == base_dir(data_home, home@, ".local/share"@),
            dirs.state_home@ == base_dir(state_home, home@, ".local/state"@),
            texts(dirs.data_dirs@) == path_entries(
                match set_to(data_dirs) {
                    Some(list) => list,
                    None => "/usr/local/share:/usr/share"@,
                },
                0,
            ),
    {
        let listed = match data_dirs {
            Some(list) => {
                if list.as_str().unicode_len() > 0 {
                    split_paths(list.as_str())
                } else {
                    split_paths("/usr/local/share:/usr/share")
                }
            },
            None => split_paths("/usr/local/share:/usr/share"),
        };
        XdgDirs {
            config_home: base_dir_of(config_home, home, ".config"),
            data_home: base_dir_of(data_home, home, ".local/share"),
            state_home: base_dir_of(state_home, home, ".local/state"),
            data_dirs: listed,
        }
    }
}

/// The files and directories of the program.
#[derive(Debug)]
pub struct Files {
    config_file: String,
    current_theme_file: String,
    managed_files_file: String,
    state_file: String,
    output_dir: String,
    state_dir: String,
    themes_dirs: Vec<String>,
    modules_dirs: Vec<String>,
}

/// A theme or a module: its name and where it lies.
#[derive(Debug, Clone, PartialEq, Eq)]
pub struct Location {
    pub name: String,
    pub path: String,
}

/// The mathematical content of a [`Location`].
pub struct LocationView {
    pub name: Seq<char>,
    pub path: Seq<char>,
}

impl View for Location {
    type V = LocationView;

    open spec fn view(&self) -> LocationView {
        LocationView { name: self.name@, path: self.path@ }
    }
}

/// The views of a list of locations.
pub open spec fn locations_view(locations: Seq<Location>) -> Seq<LocationView> {
    Seq::new(locations.len(), |i: int| locations[i]@)
}

/// The directory of the program below `base`.
pub open spec fn program_dir(base: Seq<char>) -> Seq<char> {
    joined_path(base, "niji"@)
}

/// The theme that the file `path` holds.
pub open spec fn theme_file(path: Seq<char>) -> LocationView {
    LocationView { name: stem(last_component(path)), path }
}

/// The theme that the directory `path` holds in its main file.
pub open spec fn theme_dir(path: Seq<char>) -> LocationView {
    LocationView { name: last_component(path), path: joined_path(path, "theme.toml"@) }
}

/// The module that the directory `path` holds.
pub open spec fn module_dir(path: Seq<char>) -> LocationView {
    LocationView { name: last_component(path), path }
}

impl Files {
    /// The file of the configuration.
    pub closed spec fn spec_config_file(&self) -> Seq<char> {
        self.config_file@
    }

    /// The file that names the current theme.
    pub closed spec fn spec_current_theme_file(&self) -> Seq<char> {
        self.current_theme_file@
    }

    /// The file that lists the files the program manages.
    pub closed spec fn spec_managed_files_file(&self) -> Seq<char> {
        self.managed_files_file@
    }

    /// The file of the program's state.
    pub closed spec fn spec_state_file(&self) -> Seq<char> {
        self.state_file@
    }

    /// The directory that modules write their output to.
    pub closed spec fn spec_output_dir(&self) -> Seq<char> {
        self.output_dir@
    }

    /// The directory of the program's state.
    pub closed spec fn spec_state_dir(&self) -> Seq<char> {
        self.state_dir@
    }

    /// The directories that hold themes, the user's own first.
    pub closed spec fn spec_themes_dirs(&self) -> Seq<Seq<char>> {
        texts(self.themes_dirs@)
    }

    /// The directories that hold modules, the user's own first.
    pub closed spec fn spec_modules_dirs(&self) -> Seq<Seq<char>> {
        texts(self.modules_dirs@)
    }

    /// The files and directories of the program for the base directories
    /// `xdg`. Nothing is created.
    pub fn new(xdg: &XdgDirs) -> (files: Self)
        ensures
            files.spec_config_file() == joined_path(program_dir(xdg.config_home@), "config.toml"@),
            files.spec_current_theme_file() == joined_path(
                program_dir(xdg.state_home@),
                "current_theme.txt"@,
            ),
            files.spec_managed_files_file() == joined_path(
                program_dir(xdg.state_home@),
                "managed_files.csv"@,
            ),
            files.spec_state_file() == joined_path(program_dir(xdg.state_home@), "state.toml"@),
            files.spec_output_dir() == program_dir(xdg.data_home@),
            files.spec_state_dir() == program_dir(xdg.state_home@),
            files.spec_themes_dirs().len() == xdg.data_dirs@.len() + 1,
            files.spec_modules_dirs().len() == xdg.data_dirs@.len() + 1,
            files.spec_themes_dirs()[0] == joined_path(program_dir(xdg.config_home@), "themes"@),
            files.spec_modules_dirs()[0] == joined_path(program_dir(xdg.config_home@), "modules"@),
            forall|i: int|
                0 <= i < xdg.data_dirs@.len() ==> #[trigger] files.spec_themes_dirs()[i + 1]
                    == joined_path(program_dir(xdg.data_dirs@[i]@), "themes"@),
            forall|i: int|
                0 <= i < xdg.data_dirs@.len() ==> #[trigger] files.spec_modules_dirs()[i + 1]
                    == joined_path(program_dir(xdg.data_dirs@[i]@), "modules"@),
    {
        let config_dir = join(xdg.config_home.as_str(), "niji");
        let data_dir = join(xdg.data_home.as_str(), "niji");
        let state_dir = join(xdg.state_home.as_str(), "niji");
        let mut themes_dirs: Vec<String> = Vec::new();
        let mut modules_dirs: Vec<String> = Vec::new();
        themes_dirs.push(join(config_dir.as_str(), "themes"));
        modules_dirs.push(join(config_dir.as_str(), "modules"));
        let mut i: usize = 0;
        while i < xdg.data_dirs.len()
            invariant
                i <= xdg.data_dirs@.len(),
                themes_dirs@.len() == i + 1,
                modules_dirs@.len() == i + 1,
                themes_dirs@[0]@ == joined_path(program_dir(xdg.config_home@), "themes"@),
                modules_dirs@[0]@ == joined_path(program_dir(xdg.config_home@), "modules"@),
                forall|j: int|
                    0 <= j < i ==> (#[trigger] themes_dirs@[j + 1])@ == joined_path(
                        program_dir(xdg.data_dirs@[j]@),
                        "themes"@,
                    ),
                forall|j: int|
                    0 <= j < i ==> (#[trigger] modules_dirs@[j + 1])@ == joined_path(
                        program_dir(xdg.data_dirs@[j]@),
                        "modules"@,
                    ),
            decreases xdg.data_dirs.len() - i,
        {
            let dir = join(xdg.data_dirs[i].as_str(), "niji");
            themes_dirs.push(join(dir.as_str(), "themes"));
            modules_dirs.push(join(dir.as_str(), "modules"));
            i += 1;
        }
        Files {
            config_file: join(config_dir.as_str(), "config.toml"),
            current_theme_file: join(state_dir.as_str(), "current_theme.txt"),
            managed_files_file: join(state_dir.as_str(), "managed_files.csv"),
            state_file: join(state_dir.as_str(), "state.toml"),
            output_dir: data_dir,
            state_dir,
            themes_dirs,
            modules_dirs,
        }
    }

    pub fn config_file(&self) -> (path: &str)
        ensures
            path@ == self.spec_config_file(),
    {
        self.config_file.as_str()
    }

    pub fn current_theme_file(&self) -> (path: &str)
        ensures
            path@ == self.spec_current_theme_file(),
    {
        self.current_theme_file.as_str()
    }

    pub fn managed_files_file(&self) -> (path: &str)
        ensures
            path@ == self.spec_managed_files_file(),
    {
        self.managed_files_file.as_str()
    }

    pub fn state_file(&self) -> (path: &str)
        ensures
            path@ == self.spec_state_file(),
    {
        self.state_file.as_str()
    }

    pub fn output_dir(&self) -> (path: &str)
        ensures
            path@ == self.spec_output_dir(),
    {
        self.output_dir.as_str()
    }

    pub fn state_dir(&self) -> (path: &str)
        ensures
            path@ == self.spec_state_dir(),
    {
        self.state_dir.as_str()
    }

    pub fn themes_dirs(&self) -> (dirs: &Vec<String>)
        ensures
            texts(dirs@) == self.spec_themes_dirs(),
    {
        &self.themes_dirs
    }

    pub fn modules_dirs(&self) -> (dirs: &Vec<String>)
        ensures
            texts(dirs@) == self.spec_modules_dirs(),
    {
        &self.modules_dirs
    }

    /// The themes that were found: those that are single files, then those
    /// that are directories.
    ///
    /// `files` are the files that lie in the theme directories and `dirs`
    /// the directories in them that hold a main file `theme.toml`, each list
    /// in the order of the theme directories. A file gives the theme of its
    /// stem, a directory the theme of its name.
    pub fn iter_themes(&self, files: &Vec<String>, dirs: &Vec<String>) -> (themes: Vec<Location>)
        ensures
            themes@.len() == files@.len() + dirs@.len(),
            forall|i: int| 0 <= i < files@.len() ==> (#[trigger] themes@[i])@ == theme_file(files@[i]@),
            forall|i: int|
                0 <= i < dirs@.len() ==> (#[trigger] themes@[files@.len() + i])@ == theme_dir(
                    dirs@[i]@,
                ),
    {
        let mut themes: Vec<Location> = Vec::new();
        let mut i: usize = 0;
        while i < files.len()
            invariant
                i <= files@.len(),
                themes@.len() == i,
                forall|j: int| 0 <= j < i ==> (#[trigger] themes@[j])@ == theme_file(files@[j]@),
            decreases files.len() - i,
        {
            themes.push(
                Location { name: file_stem(files[i].as_str()), path: files[i].clone() },
            );
            i += 1;
        }
        let mut k: usize = 0;
        while k < dirs.len()
            invariant
                k <= dirs@.len(),
                themes@.len() == files@.len() + k,
                forall|j: int|
                    0 <= j < files@.len() ==> (#[trigger] themes@[j])@ == theme_file(files@[j]@),
                forall|j: int|
                    0 <= j < k ==> (#[trigger] themes@[files@.len() + j])@ == theme_dir(dirs@[j]@),
            decreases dirs.len() - k,
        {
            themes.push(
                Location {
                    name: file_name(dirs[k].as_str()),
                    path: join(dirs[k].as_str(), "theme.toml"),
                },
            );
            k += 1;
        }
        themes
    }

    /// The modules that were found. `dirs` are the directories that lie in
    /// the module directories, in the order of the module directories; each
    /// gives the module of its name.
    pub fn iter_modules(&self, dirs: &Vec<String>) -> (modules: Vec<Location>)
        ensures
            modules@.len() == dirs@.len(),
            forall|i: int| 0 <= i < dirs@.len() ==> (#[trigger] modules@[i])@ == module_dir(dirs@[i]@),
    {
        let mut modules: Vec<Location> = Vec::new();
        let mut i: usize = 0;
        while i < dirs.len()
            invariant
                i <= dirs@.len(),
                modules@.len() == i,
                forall|j: int| 0 <= j < i ==> (#[trigger] modules@[j])@ == module_dir(dirs@[j]@),
            decreases dirs.len() - i,
        {
            modules.push(Location { name: file_name(dirs[i].as_str()), path: dirs[i].clone() });
            i += 1;
        }
        modules
    }
}

} // verus!
