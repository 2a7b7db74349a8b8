use crate::meta::filetype::FileType;
use vstd::prelude::*;

verus! {

/// The class of mark that a listing puts after an entry's name.
#[derive(Clone, Copy, Debug, PartialEq, Eq, Structural)]
pub enum Indicator {
    Blank,
    Directory,
    Executable,
    Pipe,
    Socket,
    SymLink,
}

impl Indicator {
    pub open spec fn spec_from(file_type: FileType) -> Indicator {
        match file_type {
            FileType::Directory { .. } => Indicator::Directory,
            FileType::File { executable: true, .. } => Indicator::Executable,
            FileType::Pipe => Indicator::Pipe,
            FileType::Socket => Indicator::Socket,
            FileType::SymLink => Indicator::SymLink,
            _ => Indicator::Blank,
        }
    }

    pub fn from(file_type: FileType) -> (i: Indicator)
        ensures
            i == Self::spec_from(file_type),
    {
        match file_type {
            FileType::Directory { .. } => Indicator::Directory,
            FileType::File { executable: true, .. } => Indicator::Executable,
            FileType::Pipe => Indicator::Pipe,
            FileType::Socket => Indicator::Socket,
            FileType::SymLink => Indicator::SymLink,
            _ => Indicator::Blank,
        }
    }
}

} // verus!
