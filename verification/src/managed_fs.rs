//! Writing to files that the user may have changed: what to do with a file,
//! given what is known of it.
//!
//! The program remembers a checksum of every file it wrote. A file that
//! still has that checksum is the program's own and is overwritten. Any
//! other file that exists is the user's: it is overwritten only after the
//! user agreed, and a copy of it may be kept.

use crate::paths::{directory_length, last_component};
use crate::text::{decimal_digits, push_decimal_u64};
use vstd::prelude::*;

verus! {

/// What is known of the file that is to be written.
#[derive(Debug, Clone, Copy, PartialEq, Eq, Structural)]
pub enum FileState {
    /// The file does not exist.
    Missing,
    /// The file exists. `current_hash` is the checksum of what it holds,
    /// `managed_hash` the checksum that was remembered for it, if any.
    Present { current_hash: u64, managed_hash: Option<u64> },
}

/// What to do with the file.
#[derive(Debug, Clone, Copy, PartialEq, Eq, Structural)]
pub enum WriteStep {
    /// Write the file and remember its checksum.
    Create,
    /// Overwrite the file and remember its new checksum.
    Overwrite,
    /// Ask the user whether the file may be overwritten; `hash` is the
    /// checksum of what it holds now.
    Confirm { hash: u64 },
}

/// What to do once the user was asked.
#[derive(Debug, Clone, Copy, PartialEq, Eq, Structural)]
pub enum ReplaceStep {
    /// The user declined: nothing is written.
    Cancel,
    /// Overwrite the file without keeping a copy.
    Replace,
    /// Copy the file to its backup path, then overwrite it.
    BackupAndReplace,
}

/// The step that the state of a file calls for.
pub open spec fn spec_write(state: FileState) -> WriteStep {
    match state {
        FileState::Missing => WriteStep::Create,
        FileState::Present { current_hash, managed_hash } => if managed_hash == Some(
            current_hash,
        ) {
            WriteStep::Overwrite
        } else {
            WriteStep::Confirm { hash: current_hash }
        },
    }
}

/// The step that the state of a file calls for.
pub fn write(state: FileState) -> (step: WriteStep)
    ensures
        step == spec_write(state),
{
    match state {
        FileState::Missing => WriteStep::Create,
        FileState::Present { current_hash, managed_hash } => match managed_hash {
            Some(known) => if known == current_hash {
                WriteStep::Overwrite
            } else {
                WriteStep::Confirm { hash: current_hash }
            },
            None => WriteStep::Confirm { hash: current_hash },
        },
    }
}

/// The step after the user answered whether to overwrite and, if so,
/// whether to keep a copy.
pub fn backup_and_replace(overwrite: bool, backup: bool) -> (step: ReplaceStep)
    ensures
        step == if !overwrite {
            ReplaceStep::Cancel
        } else if backup {
            ReplaceStep::BackupAndReplace
        } else {
            ReplaceStep::Replace
        },
{
    if !overwrite {
        ReplaceStep::Cancel
    } else if backup {
        ReplaceStep::BackupAndReplace
    } else {
        ReplaceStep::Replace
    }
}

/// The path of the copy of `path` that is made on `date` of a content with
/// the checksum `hash`: beside the file, with `.backup-`, the date, `-` and
/// the checksum after its name.
pub open spec fn backup_path(path: Seq<char>, date: Seq<char>, hash: u64) -> Seq<char> {
    path.subrange(0, directory_length(path) as int) + last_component(path) + ".backup-"@ + date
        + seq!['-'] + decimal_digits(hash as nat)
}

/// Computes [`backup_path`].
pub fn get_backup_path(path: &str, date: &str, hash: u64) -> (backup: String)
    ensures
        backup@ == backup_path(path@, date@, hash),
{
    proof {
        crate::paths::lemma_directory_length(path@);
        assert(path@.subrange(0, directory_length(path@) as int) + last_component(path@)
            =~= path@);
    }
    let mut backup = path.to_owned();
    backup.append(".backup-");
    backup.append(date);
    backup.push('-');
    push_decimal_u64(&mut backup, hash);
    backup
}

} // verus!
