//! Finding themes among the locations that were found on disk.

use crate::files::{Files, Location, LocationView, locations_view};
use crate::text::{chars_of, texts};
use std::rc::Rc;
use vstd::prelude::*;

verus! {

/// Whether `a` comes before `b` in the order of dictionaries, character by
/// character.
pub open spec fn comes_before(a: Seq<char>, b: Seq<char>) -> bool
    decreases a.len(),
{
    if b.len() == 0 {
        false
    } else if a.len() == 0 {
        true
    } else if a[0] != b[0] {
        a[0] < b[0]
    } else {
        comes_before(a.drop_first(), b.drop_first())
    }
}

/// Of two different texts one comes before the other.
pub proof fn lemma_order_total(a: Seq<char>, b: Seq<char>)
    ensures
        a == b || comes_before(a, b) || comes_before(b, a),
        !(comes_before(a, b) && comes_before(b, a)),
        !comes_before(a, a),
    decreases a.len(),
{
    if a.len() > 0 && b.len() > 0 && a[0] == b[0] {
        lemma_order_total(a.drop_first(), b.drop_first());
        if a.drop_first() == b.drop_first() {
            assert(a =~= seq![a[0]] + a.drop_first());
            assert(b =~= seq![b[0]] + b.drop_first());
        }
    } else if a.len() == 0 && b.len() == 0 {
        assert(a =~= b);
    }
    if a.len() > 0 {
        lemma_order_total(a.drop_first(), a.drop_first());
    }
}

/// What comes before something that comes before a third comes before the
/// third.
pub proof fn lemma_order_transitive(a: Seq<char>, b: Seq<char>, c: Seq<char>)
    requires
        comes_before(a, b),
        comes_before(b, c),
    ensures
        comes_before(a, c),
    decreases a.len(),
{
    if a.len() > 0 && a[0] == b[0] && b[0] == c[0] {
        lemma_order_transitive(a.drop_first(), b.drop_first(), c.drop_first());
    }
}

/// Whether `names` are in strictly ascending order.
pub open spec fn ascending(names: Seq<Seq<char>>) -> bool {
    forall|i: int, j: int| 0 <= i < j < names.len() ==> comes_before(names[i], names[j])
}

/// An ascending list holds nothing twice.
pub proof fn lemma_ascending_is_strict(names: Seq<Seq<char>>)
    requires
        ascending(names),
    ensures
        names.no_duplicates(),
{
    assert forall|i: int, j: int| 0 <= i < names.len() && 0 <= j < names.len() && i != j implies names[i]
        != names[j] by {
        lemma_order_total(names[i], names[i]);
        if i < j {
            assert(comes_before(names[i], names[j]));
        } else {
            assert(comes_before(names[j], names[i]));
        }
    }
}

/// Whether some location in `locations` is named `name`.
pub open spec fn names_theme(locations: Seq<LocationView>, name: Seq<char>) -> bool {
    exists|i: int| 0 <= i < locations.len() && (#[trigger] locations[i]).name == name
}

/// The index of the first location named `name`, or the number of locations
/// where there is none.
pub open spec fn first_named(locations: Seq<LocationView>, name: Seq<char>) -> int
    decreases locations.len(),
{
    if locations.len() == 0 {
        0
    } else if locations[0].name == name {
        0
    } else {
        1 + first_named(locations.drop_first(), name)
    }
}

/// Why a theme cannot be had.
#[derive(Debug, Clone, PartialEq, Eq)]
pub enum ThemeLookupError {
    /// No theme of this name was found.
    NotFound(String),
    /// No theme is selected.
    NoneSelected,
}

/// Decides [`comes_before`], and tells equal texts apart from texts that
/// come after: `Some(true)` for before, `None` for equal.
fn compare(a: &Vec<char>, b: &Vec<char>) -> (before: Option<bool>)
    ensures
        match before {
            Some(true) => comes_before(a@, b@),
            Some(false) => comes_before(b@, a@),
            None => a@ == b@,
        },
{
    let mut i: usize = 0;
    assert(a@.subrange(0, a@.len() as int) =~= a@);
    assert(b@.subrange(0, b@.len() as int) =~= b@);
    while i < a.len() && i < b.len()
        invariant
            i <= a@.len(),
            i <= b@.len(),
            a@.subrange(0, i as int) == b@.subrange(0, i as int),
            comes_before(a@, b@) == comes_before(
                a@.subrange(i as int, a@.len() as int),
                b@.subrange(i as int, b@.len() as int),
            ),
            comes_before(b@, a@) == comes_before(
                b@.subrange(i as int, b@.len() as int),
                a@.subrange(i as int, a@.len() as int),
            ),
        decreases a.len() - i,
    {
        let ghost ra = a@.subrange(i as int, a@.len() as int);
        let ghost rb = b@.subrange(i as int, b@.len() as int);
        assert(ra[0] == a@[i as int] && rb[0] == b@[i as int]);
        assert(ra.drop_first() =~= a@.subrange(i + 1, a@.len() as int));
        assert(rb.drop_first() =~= b@.subrange(i + 1, b@.len() as int));
        if a[i] != b[i] {
            return Some(a[i] < b[i]);
        }
        i += 1;
        assert(a@.subrange(0, i as int) =~= a@.subrange(0, i - 1).push(a@[i - 1]));
        assert(b@.subrange(0, i as int) =~= b@.subrange(0, i - 1).push(b@[i - 1]));
    }
    if i < b.len() {
        Some(true)
    } else if i < a.len() {
        Some(false)
    } else {
        assert(a@ =~= a@.subrange(0, i as int));
        assert(b@ =~= b@.subrange(0, i as int));
        None
    }
}

/// Puts `name` into the ascending list `names`, unless it is there.
fn remember(names: &mut Vec<String>, name: &String)
    requires
        ascending(texts(old(names)@)),
    ensures
        ascending(texts(final(names)@)),
        forall|other: Seq<char>|
            texts(final(names)@).contains(other) <==> (other == name@ || texts(
                old(names)@,
            ).contains(other)),
{
    let wanted = chars_of(name.as_str());
    let ghost before = texts(names@);
    let mut at: usize = 0;
    let mut placed = false;
    while at < names.len() && !placed
        invariant
            at <= names@.len(),
            *names == *old(names),
            before == texts(names@),
            wanted@ == name@,
            ascending(before),
            forall|j: int| 0 <= j < at ==> comes_before(#[trigger] before[j], name@),
            placed ==> at < names@.len() && comes_before(name@, before[at as int]),
        decreases names.len() - at + if placed { 0int } else { 1int },
    {
        let here = chars_of(names[at].as_str());
        match compare(&here, &wanted) {
            Some(true) => {
                at += 1;
            },
            None => {
                assert(before[at as int] == name@);
                assert forall|other: Seq<char>| before.contains(other) <==> (other == name@
                    || before.contains(other)) by {}
                return ;
            },
            Some(false) => {
                placed = true;
            },
        }
    }
    proof {
        assert forall|j: int| at <= j < before.len() implies comes_before(
            name@,
            #[trigger] before[j],
        ) by {
            if j > at {
                lemma_order_transitive(name@, before[at as int], before[j]);
            }
        }
    }
    names.insert(at, name.clone());
    proof {
        let after = texts(names@);
        assert(after =~= before.insert(at as int, name@));
        assert forall|i: int, j: int| 0 <= i < j < after.len() implies comes_before(
            after[i],
            after[j],
        ) by {
            if j < at {
                assert(after[i] == before[i] && after[j] == before[j]);
            } else if j == at {
                assert(after[i] == before[i]);
            } else if i < at {
                assert(after[i] == before[i] && after[j] == before[j - 1]);
            } else if i == at {
                assert(after[j] == before[j - 1]);
            } else {
                assert(after[i] == before[i - 1] && after[j] == before[j - 1]);
            }
        }
        assert forall|other: Seq<char>| after.contains(other) <==> (other == name@
            || before.contains(other)) by {
            if after.contains(other) {
                let k = choose|k: int| 0 <= k < after.len() && after[k] == other;
                if k < at {
                    assert(before[k] == other);
                } else if k > at {
                    assert(before[k - 1] == other);
                }
            }
            if other == name@ {
                assert(after[at as int] == other);
            }
            if before.contains(other) {
                let k = choose|k: int| 0 <= k < before.len() && before[k] == other;
                if k < at {
                    assert(after[k] == other);
                } else {
                    assert(after[k + 1] == other);
                }
            }
        }
    }
}

/// Finds themes among the locations that hold one.
#[derive(Debug)]
pub struct ThemeManager {
    files: Rc<Files>,
}

impl ThemeManager {
    pub fn new(files: Rc<Files>) -> (manager: Self)
        ensures
            manager.files() == files,
    {
        ThemeManager { files }
    }

    /// The files and directories of the program.
    pub closed spec fn files(&self) -> Rc<Files> {
        self.files
    }

    /// The files and directories of the program.
    pub fn get_files(&self) -> (files: &Rc<Files>)
        ensures
            *files == self.files(),
    {
        &self.files
    }

    /// The names of the themes at `locations`: each once, in ascending
    /// order.
    pub fn list_themes(&self, locations: &Vec<Location>) -> (names: Vec<String>)
        ensures
            ascending(texts(names@)),
            forall|name: Seq<char>|
                texts(names@).contains(name) <==> names_theme(locations_view(locations@), name),
    {
        let mut names: Vec<String> = Vec::new();
        let ghost all = locations_view(locations@);
        let mut i: usize = 0;
        assert forall|name: Seq<char>| texts(names@).contains(name) <==> names_theme(
            all.subrange(0, 0),
            name,
        ) by {}
        while i < locations.len()
            invariant
                i <= locations@.len(),
                all == locations_view(locations@),
                ascending(texts(names@)),
                forall|name: Seq<char>|
                    texts(names@).contains(name) <==> names_theme(all.subrange(0, i as int), name),
            decreases locations.len() - i,
        {
            let ghost before = texts(names@);
            remember(&mut names, &locations[i].name);
            i += 1;
            proof {
                let seen = all.subrange(0, i - 1);
                let now = all.subrange(0, i as int);
                let added = locations@[i - 1].name@;
                assert(now[i - 1].name == added);
                assert forall|name: Seq<char>| texts(names@).contains(name) <==> names_theme(
                    now,
                    name,
                ) by {
                    if names_theme(seen, name) {
                        let k = choose|k: int| 0 <= k < seen.len() && (#[trigger] seen[k]).name
                            == name;
                        assert(now[k].name == name);
                    }
                    if names_theme(now, name) {
                        let k = choose|k: int| 0 <= k < now.len() && (#[trigger] now[k]).name
                            == name;
                        if k < i - 1 {
                            assert(seen[k].name == name);
                        }
                    }
                }
            }
        }
        assert(all.subrange(0, i as int) =~= all);
        names
    }

    /// The path of the first of `locations` that is named `name`.
    pub fn find_theme_path(&self, locations: &Vec<Location>, name: &str) -> (path: Option<String>)
        ensures
            match path {
                Some(p) => {
                    let at = first_named(locations_view(locations@), name@);
                    at < locations@.len() && p@ == locations@[at].path@
                },
                None => first_named(locations_view(locations@), name@) == locations@.len(),
            },
    {
        let wanted = name.to_owned();
        let ghost all = locations_view(locations@);
        let mut i: usize = 0;
        assert(all.subrange(0, all.len() as int) =~= all);
        while i < locations.len()
            invariant
                i <= locations@.len(),
                wanted@ == name@,
                all == locations_view(locations@),
                first_named(all, name@) == i + first_named(
                    all.subrange(i as int, all.len() as int),
                    name@,
                ),
            decreases locations.len() - i,
        {
            let ghost rest = all.subrange(i as int, all.len() as int);
            assert(rest[0] == locations@[i as int]@);
            assert(rest.drop_first() =~= all.subrange(i + 1, all.len() as int));
            if locations[i].name == wanted {
                return Some(locations[i].path.clone());
            }
            i += 1;
        }
        None
    }

    /// The path of the theme `name` among `locations`: the file to read it
    /// from.
    pub fn get_theme(&self, locations: &Vec<Location>, name: &str) -> (result: Result<
        String,
        ThemeLookupError,
    >)
        ensures
            match result {
                Ok(p) => {
                    let at = first_named(locations_view(locations@), name@);
                    at < locations@.len() && p@ == locations@[at].path@
                },
                Err(ThemeLookupError::NotFound(missing)) => {
                    &&& first_named(locations_view(locations@), name@) == locations@.len()
                    &&& missing@ == name@
                },
                Err(ThemeLookupError::NoneSelected) => false,
            },
    {
        match self.find_theme_path(locations, name) {
            Some(path) => Ok(path),
            None => Err(ThemeLookupError::NotFound(name.to_owned())),
        }
    }

    /// The path of the current theme among `locations`, where `current` is
    /// what the file of the current theme holds: the name of the theme, or
    /// nothing where none is selected.
    pub fn get_current_theme(&self, locations: &Vec<Location>, current: &str) -> (result: Result<
        String,
        ThemeLookupError,
    >)
        ensures
            match result {
                Ok(p) => {
                    let at = first_named(locations_view(locations@), current@);
                    current@.len() > 0 && at < locations@.len() && p@ == locations@[at].path@
                },
                Err(ThemeLookupError::NoneSelected) => current@.len() == 0,
                Err(ThemeLookupError::NotFound(missing)) => {
                    &&& current@.len() > 0
                    &&& first_named(locations_view(locations@), current@) == locations@.len()
                    &&& missing@ == current@
                },
            },
    {
        if current.unicode_len() == 0 {
            return Err(ThemeLookupError::NoneSelected);
        }
        self.get_theme(locations, current)
    }

    /// What is written to the file of the current theme to select the theme
    /// `name`: the name, if a theme of that name is among `locations`.
    pub fn set_current_theme(&self, locations: &Vec<Location>, name: String) -> (result: Result<
        String,
        ThemeLookupError,
    >)
        ensures
            match result {
                Ok(written) => written@ == name@ && first_named(
                    locations_view(locations@),
                    name@,
                ) < locations@.len(),
                Err(ThemeLookupError::NotFound(missing)) => {
                    &&& first_named(locations_view(locations@), name@) == locations@.len()
                    &&& missing@ == name@
                },
                Err(ThemeLookupError::NoneSelected) => false,
            },
    {
        match self.find_theme_path(locations, name.as_str()) {
            Some(_) => Ok(name),
            None => Err(ThemeLookupError::NotFound(name)),
        }
    }

    /// What is written to the file of the current theme to select none.
    pub fn unset_current_theme(&self) -> (written: String)
        ensures
            written@.len() == 0,
    {
        String::new()
    }
}

} // verus!
