use crate::disk::Record;
use vstd::prelude::*;

verus! {

/// The permission bits of an entry, one flag each.
#[derive(Clone, Copy, Debug, PartialEq, Eq, Structural)]
pub struct Permissions {
    pub user_read: bool,
    pub user_write: bool,
    pub user_execute: bool,
    pub group_read: bool,
    pub group_write: bool,
    pub group_execute: bool,
    pub other_read: bool,
    pub other_write: bool,
    pub other_execute: bool,
    pub sticky: bool,
    pub setgid: bool,
    pub setuid: bool,
}

impl Permissions {
    /// The flags that the POSIX mode bits of `record` spell out.
    pub open spec fn spec_from(record: Record) -> Permissions {
        Permissions {
            user_read: record.mode & 0o400 != 0,
            user_write: record.mode & 0o200 != 0,
            user_execute: record.mode & 0o100 != 0,
            group_read: record.mode & 0o040 != 0,
            group_write: record.mode & 0o020 != 0,
            group_execute: record.mode & 0o010 != 0,
            other_read: record.mode & 0o004 != 0,
            other_write: record.mode & 0o002 != 0,
            other_execute: record.mode & 0o001 != 0,
            sticky: record.mode & 0o1000 != 0,
            setgid: record.mode & 0o2000 != 0,
            setuid: record.mode & 0o4000 != 0,
        }
    }

    pub fn from(record: &Record) -> (p: Permissions)
        ensures
            p == Self::spec_from(*record),
    {
        let mode: u32 = record.mode;
        Permissions {
            user_read: mode & 0o400 != 0,
            user_write: mode & 0o200 != 0,
            user_execute: mode & 0o100 != 0,
            group_read: mode & 0o040 != 0,
            group_write: mode & 0o020 != 0,
            group_execute: mode & 0o010 != 0,
            other_read: mode & 0o004 != 0,
            other_write: mode & 0o002 != 0,
            other_execute: mode & 0o001 != 0,
            sticky: mode & 0o1000 != 0,
            setgid: mode & 0o2000 != 0,
            setuid: mode & 0o4000 != 0,
        }
    }

    /// Whether anyone may execute the entry.
    pub open spec fn spec_is_executable(&self) -> bool {
        self.user_execute || self.group_execute || self.other_execute
    }

    #[verifier::when_used_as_spec(spec_is_executable)]
    pub fn is_executable(&self) -> (b: bool)
        ensures
            b == self.spec_is_executable(),
    {
        self.user_execute || self.group_execute || self.other_execute
    }
}

} // verus!
