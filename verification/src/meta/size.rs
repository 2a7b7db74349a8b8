use crate::disk::Record;
use vstd::prelude::*;

verus! {

/// A size in bytes.
#[derive(Clone, Copy, Debug, PartialEq, Eq, Structural)]
pub struct Size {
    pub bytes: u64,
}

impl Size {
    pub open spec fn spec_new(bytes: u64) -> Size {
        Size { bytes }
    }

    pub open spec fn spec_get_bytes(&self) -> u64 {
        self.bytes
    }

    /// The size that `record` reports.
    pub open spec fn spec_from(record: Record) -> Size {
        Self::spec_new(record.len)
    }

    #[verifier::when_used_as_spec(spec_new)]
    pub fn new(bytes: u64) -> (s: Size)
        ensures
            s == Self::spec_new(bytes),
    {
        Size { bytes }
    }

    #[verifier::when_used_as_spec(spec_get_bytes)]
    pub fn get_bytes(&self) -> (b: u64)
        ensures
            b == self.spec_get_bytes(),
    {
        self.bytes
    }

    pub fn from(record: &Record) -> (s: Size)
        ensures
            s == Self::spec_from(*record),
    {
        Size { bytes: record.len }
    }
}

} // verus!
