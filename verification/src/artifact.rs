//! Hints for the user on how to make a module's output take effect.

use crate::text::texts;
use vstd::prelude::*;

verus! {

/// `items` with `separator` between them.
pub open spec fn separated(items: Seq<Seq<char>>, separator: Seq<char>) -> Seq<char>
    decreases items.len(),
{
    if items.len() == 0 {
        Seq::empty()
    } else if items.len() == 1 {
        items[0]
    } else {
        separated(items.drop_last(), separator) + separator + items.last()
    }
}

/// The hint on where to add `hint`: nothing where there is no hint or no
/// file to add it to; else the one file, or the choice of files.
pub open spec fn spec_sourcing_hint(hint: Option<Seq<char>>, config_paths: Seq<Seq<char>>) -> Seq<
    char,
> {
    match hint {
        Some(text) => if config_paths.len() == 0 {
            Seq::empty()
        } else if config_paths.len() == 1 {
            "\nTo do this, add the following to "@ + config_paths[0] + ":\n"@ + text + seq!['\n']
        } else {
            "\nTo do this, add the following to one of "@ + separated(config_paths, ", "@) + ":\n"@
                + text + seq!['\n']
        },
        None => Seq::empty(),
    }
}

/// Computes [`separated`].
pub fn join_all(items: &Vec<String>, separator: &str) -> (joined: String)
    ensures
        joined@ == separated(texts(items@), separator@),
{
    let mut joined = String::new();
    if items.len() == 0 {
        return joined;
    }
    joined.append(items[0].as_str());
    let ghost all = texts(items@);
    assert(all.subrange(0, 1) =~= seq![all[0]]);
    assert(joined@ =~= separated(all.subrange(0, 1), separator@));
    let mut i: usize = 1;
    while i < items.len()
        invariant
            1 <= i <= items@.len(),
            all == texts(items@),
            joined@ == separated(all.subrange(0, i as int), separator@),
        decreases items.len() - i,
    {
        joined.append(separator);
        joined.append(items[i].as_str());
        i += 1;
        proof {
            let upto = all.subrange(0, i as int);
            assert(upto.drop_last() =~= all.subrange(0, i - 1));
            assert(upto.last() == items@[i - 1]@);
        }
    }
    assert(all.subrange(0, i as int) =~= all);
    joined
}

/// Computes [`spec_sourcing_hint`].
pub fn sourcing_hint(hint: Option<&str>, config_paths: &Vec<String>) -> (text: String)
    ensures
        text@ == spec_sourcing_hint(
            match hint {
                Some(h) => Some(h@),
                None => None,
            },
            texts(config_paths@),
        ),
{
    let mut text = String::new();
    match hint {
        Some(wanted) => {
            if config_paths.len() == 1 {
                text.append("\nTo do this, add the following to ");
                text.append(config_paths[0].as_str());
                text.append(":\n");
                text.append(wanted);
                text.push('\n');
                assert(text@ =~= "\nTo do this, add the following to "@ + texts(config_paths@)[0]
                    + ":\n"@ + wanted@ + seq!['\n']);
            } else if config_paths.len() > 1 {
                text.append("\nTo do this, add the following to one of ");
                text.append(join_all(config_paths, ", ").as_str());
                text.append(":\n");
                text.append(wanted);
                text.push('\n');
                assert(text@ =~= "\nTo do this, add the following to one of "@ + separated(
                    texts(config_paths@),
                    ", "@,
                ) + ":\n"@ + wanted@ + seq!['\n']);
            }
        },
        None => {},
    }
    text
}

} // verus!
