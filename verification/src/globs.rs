//! The exclusion set: glob patterns that keep matching entries out of a tree.
//!
//! The set is a `globset::GlobSet`, built by the caller. Nothing here is
//! proved of it: the three items below are what the rest of the library takes
//! on trust about that crate.

use globset::GlobSet;
use vstd::prelude::*;

verus! {

/// `globset::GlobSet`, taken as it is: a value that is carried and asked, and
/// whose inside the proofs never look at.
#[verifier::external_type_specification]
#[verifier::external_body]
pub struct ExGlobSet(globset::GlobSet);

/// What a glob set holds, read as the names that it matches: a name is in
/// this set where at least one glob of the set accepts it as a path.
pub uninterp spec fn glob_set_names(set: GlobSet) -> Set<Seq<char>>;

/// Calls `GlobSet::is_match` with the name as the path to match.
///
/// Trusted: the call answers `true` for the names that the set matches and
/// `false` for all others. A built set does not change and the call reads
/// nothing but the set and the name, so one set gives one answer for one
/// name. The call returns for every set and name.
#[verifier::external_body]
pub(crate) fn glob_set_is_match(set: &GlobSet, name: &str) -> (b: bool)
    ensures
        b == glob_set_names(*set).contains(name@),
{
    set.is_match(name)
}

} // verus!
