//! Which modules a theme is applied to, and whether a module is reloaded
//! afterwards.

use crate::config::DisableReloads;
use crate::files::{Location, locations_view};
use crate::text::texts;
use crate::theme_manager::first_named;
use vstd::prelude::*;

verus! {

/// Whether `list` holds `name`.
pub fn holds(list: &Vec<String>, name: &String) -> (found: bool)
    ensures
        found == texts(list@).contains(name@),
{
    let mut i: usize = 0;
    while i < list.len()
        invariant
            i <= list@.len(),
            forall|j: int| 0 <= j < i ==> texts(list@)[j] != name@,
        decreases list.len() - i,
    {
        if list[i] == *name {
            assert(texts(list@)[i as int] == name@);
            return true;
        }
        i += 1;
    }
    false
}

/// What is done about reloading a module after the theme was applied to it.
#[derive(Debug, Clone, Copy, PartialEq, Eq, Structural)]
pub enum ReloadStep {
    /// Reloading was not asked for.
    Skip,
    /// Reloading is disabled for the module by the configuration.
    Disabled,
    /// The module is reloaded.
    Reload,
    /// The module does not support reloading.
    Unsupported,
}

/// What is done about reloading the module `name`: nothing unless `reload`
/// asks for it; then the configuration decides before the module is asked
/// whether it can.
pub fn reload_step(reload: bool, disable_reloads: &DisableReloads, name: &str, can_reload: bool)
    -> (step: ReloadStep)
    ensures
        step == if !reload {
            ReloadStep::Skip
        } else if disable_reloads.spec_is_disabled(name@) {
            ReloadStep::Disabled
        } else if can_reload {
            ReloadStep::Reload
        } else {
            ReloadStep::Unsupported
        },
{
    if !reload {
        ReloadStep::Skip
    } else if disable_reloads.is_disabled(name) {
        ReloadStep::Disabled
    } else if can_reload {
        ReloadStep::Reload
    } else {
        ReloadStep::Unsupported
    }
}

/// The modules that a theme is applied to.
#[derive(Debug, Clone, PartialEq, Eq)]
pub struct Selection {
    /// The indices of the active modules that take part, in ascending
    /// order.
    pub apply: Vec<usize>,
    /// The names of the modules that take part without being active yet:
    /// they are activated first, then applied, in this order.
    pub activate: Vec<String>,
}

/// Whether the active module with index `i` takes part: all do where nothing
/// is requested; else the first active module of each requested name.
pub open spec fn takes_part(active: Seq<Seq<char>>, requested: Option<Seq<Seq<char>>>, i: int)
    -> bool {
    &&& 0 <= i < active.len()
    &&& match requested {
        None => true,
        Some(names) => names.contains(active[i]) && !active.subrange(0, i).contains(active[i]),
    }
}

/// The names that are requested, if any.
pub open spec fn names_of(requested: Option<&Vec<String>>) -> Seq<Seq<char>> {
    match requested {
        Some(names) => texts(names@),
        None => Seq::empty(),
    }
}

/// The modules that a theme is applied to, of the `active` ones and the
/// `requested` ones.
pub fn select(active: &Vec<String>, requested: Option<&Vec<String>>) -> (selection: Selection)
    ensures
        forall|k: int, l: int|
            0 <= k < l < selection.apply@.len() ==> selection.apply@[k] < selection.apply@[l],
        forall|i: usize|
            #[trigger] selection.apply@.contains(i) <==> takes_part(
                texts(active@),
                match requested {
                    Some(names) => Some(texts(names@)),
                    None => None,
                },
                i as int,
            ),
        texts(selection.activate@).no_duplicates(),
        forall|name: Seq<char>| #[trigger]
            texts(selection.activate@).contains(name) ==> names_of(requested).contains(name)
                && !texts(active@).contains(name),
        forall|name: Seq<char>|
            #[trigger] names_of(requested).contains(name) && !texts(active@).contains(name)
                ==> texts(selection.activate@).contains(name),
{
    let ghost wanted = match requested {
        Some(names) => Some(texts(names@)),
        None => None,
    };
    let ghost all = texts(active@);
    let mut apply: Vec<usize> = Vec::new();
    let mut seen: Vec<String> = Vec::new();
    let mut i: usize = 0;
    assert(texts(seen@) =~= all.subrange(0, 0));
    while i < active.len()
        invariant
            i <= active@.len(),
            all == texts(active@),
            wanted == match requested {
                Some(names) => Some(texts(names@)),
                None => None::<Seq<Seq<char>>>,
            },
            texts(seen@) == all.subrange(0, i as int),
            forall|k: int| 0 <= k < apply@.len() ==> apply@[k] < i,
            forall|k: int, l: int| 0 <= k < l < apply@.len() ==> apply@[k] < apply@[l],
            forall|j: usize|
                #[trigger] apply@.contains(j) <==> j < i && takes_part(all, wanted, j as int),
        decreases active.len() - i,
    {
        let part = match requested {
            None => true,
            Some(names) => {
                let is_requested = holds(names, &active[i]);
                let is_first = !holds(&seen, &active[i]);
                is_requested && is_first
            },
        };
        let ghost before = apply@;
        if part {
            apply.push(i);
        }
        let ghost seen_before = seen@;
        let copy = active[i].clone();
        assert(copy@ == all[i as int]);
        seen.push(copy);
        proof {
            assert(texts(seen_before) == all.subrange(0, i as int));
            assert(texts(seen_before).len() == seen_before.len());
            assert(seen@.len() == i + 1);
            assert(texts(seen@).len() == seen@.len());
            assert forall|j: int| 0 <= j < i + 1 implies texts(seen@)[j] == all[j] by {
                if j < i {
                    assert(texts(seen@)[j] == texts(seen_before)[j]);
                }
            }
            assert(texts(seen@) =~= all.subrange(0, i + 1));
            assert forall|j: usize| #[trigger] apply@.contains(j) <==> j < i + 1 && takes_part(
                all,
                wanted,
                j as int,
            ) by {
                if apply@.contains(j) {
                    let k = choose|k: int| 0 <= k < apply@.len() && apply@[k] == j;
                    if k < before.len() {
                        assert(before[k] == j);
                        assert(before.contains(j));
                    }
                }
                if j < i + 1 && takes_part(all, wanted, j as int) {
                    if j < i {
                        assert(before.contains(j));
                        let k = choose|k: int| 0 <= k < before.len() && before[k] == j;
                        assert(apply@[k] == j);
                    } else {
                        assert(apply@[apply@.len() - 1] == j);
                    }
                }
            }
        }
        i += 1;
    }
    let mut activate: Vec<String> = Vec::new();
    match requested {
        None => {
            assert(texts(activate@) =~= Seq::<Seq<char>>::empty());
        },
        Some(names) => {
            let ghost list = texts(names@);
            let mut k: usize = 0;
            while k < names.len()
                invariant
                    k <= names@.len(),
                    list == texts(names@),
                    all == texts(active@),
                    texts(activate@).no_duplicates(),
                    forall|name: Seq<char>| #[trigger]
                        texts(activate@).contains(name) ==> list.subrange(0, k as int).contains(
                            name,
                        ) && !all.contains(name),
                    forall|name: Seq<char>|
                        #[trigger] list.subrange(0, k as int).contains(name) && !all.contains(name)
                            ==> texts(activate@).contains(name),
                decreases names.len() - k,
            {
                let ghost before = texts(activate@);
                let ghost upto = list.subrange(0, k as int);
                let is_active = holds(active, &names[k]);
                let is_new = !holds(&activate, &names[k]);
                let add = !is_active && is_new;
                if add {
                    let copy = names[k].clone();
                    assert(copy@ == list[k as int]);
                    activate.push(copy);
                    assert(texts(activate@) =~= before.push(list[k as int]));
                }
                proof {
                    let now = list.subrange(0, k + 1);
                    let after = texts(activate@);
                    assert(now =~= upto.push(list[k as int]));
                    assert forall|name: Seq<char>| #[trigger] after.contains(name) implies now.contains(
                        name,
                    ) && !all.contains(name) by {
                        if after.contains(name) {
                            let m = choose|m: int| 0 <= m < after.len() && after[m] == name;
                            if m < before.len() {
                                assert(before[m] == name);
                                assert(before.contains(name));
                                let n = choose|n: int| 0 <= n < upto.len() && upto[n] == name;
                                assert(now[n] == name);
                            } else {
                                assert(now[k as int] == name);
                            }
                        }
                    }
                    assert forall|name: Seq<char>| #[trigger]
                        now.contains(name) && !all.contains(name) implies after.contains(name) by {
                        if now.contains(name) && !all.contains(name) {
                            let n = choose|n: int| 0 <= n < now.len() && now[n] == name;
                            if n < k {
                                assert(upto[n] == name);
                                assert(upto.contains(name));
                                assert(before.contains(name));
                                let m = choose|m: int| 0 <= m < before.len() && before[m] == name;
                                assert(after[m] == name);
                            } else if add {
                                assert(after[after.len() - 1] == name);
                            } else {
                                assert(now[k as int] == list[k as int]);
                                assert(name == names@[k as int]@);
                                assert(before.contains(name));
                            }
                        }
                    }
                }
                k += 1;
            }
            assert(list.subrange(0, k as int) =~= list);
        },
    }
    Selection { apply, activate }
}

/// The directory of the module `name` among `locations`: that of the first
/// location of that name.
pub fn find_module_dir(locations: &Vec<Location>, name: &str) -> (path: Option<String>)
    ensures
        match path {
            Some(p) => {
                let at = first_named(locations_view(locations@), name@);
                at < locations@.len() && p@ == locations@[at].path@
            },
            None => first_named(locations_view(locations@), name@) == locations@.len(),
        },
{
    let wanted = name.to_owned();
    let ghost all = locations_view(locations@);
    let mut i: usize = 0;
    assert(all.subrange(0, all.len() as int) =~= all);
    while i < locations.len()
        invariant
            i <= locations@.len(),
            wanted@ == name@,
            all == locations_view(locations@),
            first_named(all, name@) == i + first_named(
                all.subrange(i as int, all.len() as int),
                name@,
            ),
        decreases locations.len() - i,
    {
        let ghost rest = all.subrange(i as int, all.len() as int);
        assert(rest[0] == locations@[i as int]@);
        assert(rest.drop_first() =~= all.subrange(i + 1, all.len() as int));
        if locations[i].name == wanted {
            return Some(locations[i].path.clone());
        }
        i += 1;
    }
    None
}

} // verus!
