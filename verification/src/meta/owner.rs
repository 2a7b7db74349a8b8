use crate::disk::Record;
use vstd::prelude::*;

verus! {

/// Who owns an entry: the numeric user and group.
#[derive(Clone, Copy, Debug, PartialEq, Eq, Structural)]
pub struct Owner {
    pub uid: u32,
    pub gid: u32,
}

impl Owner {
    pub open spec fn spec_from(record: Record) -> Owner {
        Owner { uid: record.uid, gid: record.gid }
    }

    pub fn from(record: &Record) -> (o: Owner)
        ensures
            o == Self::spec_from(*record),
    {
        Owner { uid: record.uid, gid: record.gid }
    }
}

} // verus!
