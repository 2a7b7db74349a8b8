use crate::disk::Record;
use vstd::prelude::*;

verus! {

/// When an entry was last modified: seconds since the epoch, or the mark of a
/// time that could not be read.
#[derive(Clone, Copy, Debug, PartialEq, Eq, Structural)]
pub enum Date {
    At(i64),
    Invalid,
}

impl Date {
    pub open spec fn spec_from(record: Record) -> Date {
        match record.modified {
            Some(seconds) => Date::At(seconds),
            None => Date::Invalid,
        }
    }

    pub fn from(record: &Record) -> (d: Date)
        ensures
            d == Self::spec_from(*record),
    {
        match record.modified {
            Some(seconds) => Date::At(seconds),
            None => Date::Invalid,
        }
    }
}

} // verus!
