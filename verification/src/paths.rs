//! Paths as texts with `/` between their components.

use crate::text::{chars_of, string_of};
use vstd::prelude::*;

verus! {

/// The path `component` below `base`. A component that begins with `/`
/// stands for itself.
pub open spec fn joined_path(base: Seq<char>, component: Seq<char>) -> Seq<char> {
    if component.len() > 0 && component[0] == '/' {
        component
    } else if base.len() == 0 {
        component
    } else if base.last() == '/' {
        base + component
    } else {
        base + seq!['/'] + component
    }
}

/// The number of characters of `path` up to and with its last `/`.
pub open spec fn directory_length(path: Seq<char>) -> nat
    decreases path.len(),
{
    if path.len() == 0 {
        0
    } else if path.last() == '/' {
        path.len()
    } else {
        directory_length(path.drop_last())
    }
}

/// The last component of `path`: what follows its last `/`.
pub open spec fn last_component(path: Seq<char>) -> Seq<char> {
    path.subrange(directory_length(path) as int, path.len() as int)
}

/// The number of characters of `name` before its last `.`, or none where it
/// has no `.`.
pub open spec fn last_dot(name: Seq<char>) -> Option<nat>
    decreases name.len(),
{
    if name.len() == 0 {
        None
    } else if name.last() == '.' {
        Some((name.len() - 1) as nat)
    } else {
        last_dot(name.drop_last())
    }
}

/// The stem of a file name: the name without its last extension. A name
/// whose only `.` is its first character has no extension.
pub open spec fn stem(name: Seq<char>) -> Seq<char> {
    match last_dot(name) {
        Some(dot) => if dot == 0 {
            name
        } else {
            name.subrange(0, dot as int)
        },
        None => name,
    }
}

/// The directory of a path is a part of the path.
pub proof fn lemma_directory_length(path: Seq<char>)
    ensures
        directory_length(path) <= path.len(),
    decreases path.len(),
{
    if path.len() > 0 && path.last() != '/' {
        lemma_directory_length(path.drop_last());
    }
}

/// Computes [`joined_path`].
pub fn join(base: &str, component: &str) -> (path: String)
    ensures
        path@ == joined_path(base@, component@),
{
    let first = chars_of(base);
    let second = chars_of(component);
    if second.len() > 0 && second[0] == '/' {
        return component.to_owned();
    }
    if first.len() == 0 {
        return component.to_owned();
    }
    let mut path = base.to_owned();
    if first[first.len() - 1] != '/' {
        path.push('/');
    }
    path.append(component);
    path
}

/// Computes [`last_component`].
pub fn file_name(path: &str) -> (name: String)
    ensures
        name@ == last_component(path@),
{
    let chars = chars_of(path);
    let mut start: usize = chars.len();
    assert(chars@.subrange(0, chars@.len() as int) =~= chars@);
    while start > 0 && chars[start - 1] != '/'
        invariant
            start <= chars@.len(),
            directory_length(chars@) == directory_length(chars@.subrange(0, start as int)),
        decreases start,
    {
        assert(chars@.subrange(0, start as int).drop_last() =~= chars@.subrange(0, start - 1));
        start -= 1;
    }
    proof {
        assert(chars@.subrange(0, chars@.len() as int) =~= chars@);
        let head = chars@.subrange(0, start as int);
        if start > 0 {
            assert(head.last() == '/');
        }
    }
    string_of(&chars, start, chars.len())
}

/// Computes the [`stem`] of the last component of `path`.
pub fn file_stem(path: &str) -> (name: String)
    ensures
        name@ == stem(last_component(path@)),
{
    let whole = file_name(path);
    let chars = chars_of(whole.as_str());
    let mut end: usize = chars.len();
    assert(chars@.subrange(0, chars@.len() as int) =~= chars@);
    while end > 0 && chars[end - 1] != '.'
        invariant
            end <= chars@.len(),
            last_dot(chars@) == last_dot(chars@.subrange(0, end as int)),
        decreases end,
    {
        assert(chars@.subrange(0, end as int).drop_last() =~= chars@.subrange(0, end - 1));
        end -= 1;
    }
    proof {
        let head = chars@.subrange(0, end as int);
        if end > 0 {
            assert(head.last() == '.');
        }
    }
    if end <= 1 {
        assert(chars@.subrange(0, chars@.len() as int) =~= chars@);
        return whole;
    }
    string_of(&chars, 0, end - 1)
}

} // verus!
