//! The manager of the files that the program writes for the user.

use crate::files::Files;
use crate::managed_fs::{FileState, WriteStep, spec_write};
use std::rc::Rc;
use vstd::prelude::*;

verus! {

/// Decides how files are written, for the files and directories of the
/// program.
#[derive(Debug)]
pub struct FileManager {
    files: Rc<Files>,
}

impl FileManager {
    pub fn new(files: Rc<Files>) -> (manager: Self)
        ensures
            manager.files() == files,
    {
        FileManager { files }
    }

    /// The files and directories of the program.
    pub closed spec fn files(&self) -> Rc<Files> {
        self.files
    }

    /// The files and directories of the program.
    pub fn get_files(&self) -> (files: &Rc<Files>)
        ensures
            *files == self.files(),
    {
        &self.files
    }

    /// The step that writing to a file in the state `state` calls for.
    pub fn write_managed(&self, state: FileState) -> (step: WriteStep)
        ensures
            step == spec_write(state),
    {
        crate::managed_fs::write(state)
    }
}

} // verus!
