//! The file-system subsystem, reduced to the part the binding itself owns:
//! turning the native API's integer results into `Result` values that carry
//! the engine's error message.
//!
//! The actual reads and writes happen on the device and stay outside this
//! model; the host records the engine's last error text here so that failures
//! surface with their message, as the native `geterr` entry point reports it.

use vstd::prelude::*;

use crate::error::Error;

verus! {

/// Whether an unlink descends into directories.
#[derive(Clone, Copy, PartialEq, Eq, Structural, Debug)]
pub enum UnlinkMode {
    NonRecursive,
    Recursive,
}

impl UnlinkMode {
    /// The numeric encoding the native engine uses.
    pub fn code(&self) -> (r: i32)
        ensures
            r == 0 <==> self is NonRecursive,
            r == 1 <==> self is Recursive,
    {
        match self {
            UnlinkMode::NonRecursive => 0,
            UnlinkMode::Recursive => 1,
        }
    }
}

/// Whether directory listings include hidden files.
#[derive(Clone, Copy, PartialEq, Eq, Structural, Debug)]
pub enum HiddenFiles {
    Hide,
    Show,
}

impl HiddenFiles {
    /// The numeric encoding the native engine uses.
    pub fn code(&self) -> (r: i32)
        ensures
            r == 0 <==> self is Hide,
            r == 1 <==> self is Show,
    {
        match self {
            HiddenFiles::Hide => 0,
            HiddenFiles::Show => 1,
        }
    }
}

/// The file-system subsystem model.
pub struct FileSystem {
    pub last_error: String,
}

impl FileSystem {
    /// The engine's last reported error text.
    pub open spec fn spec_last_error(self) -> Seq<char> {
        self.last_error@
    }

    pub(crate) fn new() -> (r: FileSystem)
        ensures
            r.spec_last_error() == Seq::<char>::empty(),
    {
        FileSystem { last_error: String::new() }
    }

    /// Records the error text the engine reported last; the host feeds this
    /// from the native `geterr` entry point.
    pub fn set_last_error(&mut self, message: String)
        ensures
            final(self).spec_last_error() == message@,
    {
        self.last_error = message;
    }

    /// Translates a native file-API result code. Every code except the
    /// failure marker `-1` means success; `-1` becomes an error carrying the
    /// engine's last message.
    pub fn fs_result_from_int(&self, result: i32) -> (r: Result<(), Error>)
        ensures
            r is Ok <==> result != -1,
            r matches Err(e) ==> e.message@ == self.spec_last_error(),
    {
        if result != -1 {
            Ok(())
        } else {
            Err(Error { message: self.last_error.clone() })
        }
    }
}

} // verus!
