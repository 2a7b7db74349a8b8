use crate::disk::{Kind, Record};
use crate::meta::permissions::Permissions;
use vstd::prelude::*;

verus! {

/// What an entry is, with the marks that colour it.
#[derive(Clone, Copy, Debug, PartialEq, Eq, Structural)]
pub enum FileType {
    BlockDevice,
    CharDevice,
    Directory { uid: bool },
    File { uid: bool, executable: bool },
    SymLink,
    Pipe,
    Socket,
    Special,
}

impl FileType {
    /// The type of the entry that `record` describes; the set-user-id and
    /// execute marks come from `permissions`.
    pub open spec fn spec_new(record: Record, permissions: Permissions) -> FileType {
        match record.kind {
            Kind::File => FileType::File {
                uid: permissions.setuid,
                executable: permissions.spec_is_executable(),
            },
            Kind::Directory => FileType::Directory { uid: permissions.setuid },
            Kind::SymLink => FileType::SymLink,
            Kind::Pipe => FileType::Pipe,
            Kind::Socket => FileType::Socket,
            Kind::CharDevice => FileType::CharDevice,
            Kind::BlockDevice => FileType::BlockDevice,
            Kind::Other => FileType::Special,
        }
    }

    pub fn new(record: &Record, permissions: &Permissions) -> (t: FileType)
        ensures
            t == Self::spec_new(*record, *permissions),
    {
        match record.kind {
            Kind::File => FileType::File {
                uid: permissions.setuid,
                executable: permissions.is_executable(),
            },
            Kind::Directory => FileType::Directory { uid: permissions.setuid },
            Kind::SymLink => FileType::SymLink,
            Kind::Pipe => FileType::Pipe,
            Kind::Socket => FileType::Socket,
            Kind::CharDevice => FileType::CharDevice,
            Kind::BlockDevice => FileType::BlockDevice,
            Kind::Other => FileType::Special,
        }
    }

    pub open spec fn spec_is_directory(&self) -> bool {
        self is Directory
    }

    #[verifier::when_used_as_spec(spec_is_directory)]
    pub fn is_directory(&self) -> (b: bool)
        ensures
            b == self.spec_is_directory(),
    {
        match self {
            FileType::Directory { .. } => true,
            _ => false,
        }
    }
}

} // verus!
