//! Which entries of a directory are let into the tree.

use crate::flags::Display;
use crate::globs::{glob_set_is_match, glob_set_names};
use globset::GlobSet;
use vstd::prelude::*;
use vstd::string::StrSliceExecFns;

verus! {

/// Whether a name begins with a dot, the mark of a hidden file.
pub open spec fn is_hidden(name: Seq<char>) -> bool {
    name.len() > 0 && name[0] == '.'
}

/// Whether an entry of this name is let in under `display`, given whether the
/// exclusion set matches the name: never when it does, and under a mode that
/// hides dotfiles only when the name does not begin with a dot.
pub open spec fn spec_admits(name: Seq<char>, display: Display, excluded: bool) -> bool {
    !excluded && !(display.spec_hides_dotfiles() && is_hidden(name))
}

/// Whether an entry of this name is let in under `display` and the names to
/// exclude.
pub open spec fn admitted(name: Seq<char>, display: Display, excluded: Set<Seq<char>>) -> bool {
    spec_admits(name, display, excluded.contains(name))
}

/// Looks at the first character of the name.
pub fn name_is_hidden(name: &str) -> (b: bool)
    ensures
        b == is_hidden(name@),
{
    if name.is_empty() {
        false
    } else {
        name.get_char(0) == '.'
    }
}

/// Decides on an entry from its name, the display mode and the exclusion
/// set's answer for the name.
pub fn admits(name: &str, display: Display, excluded: bool) -> (b: bool)
    ensures
        b == spec_admits(name@, display, excluded),
{
    if excluded {
        false
    } else if display.hides_dotfiles() {
        !name_is_hidden(name)
    } else {
        true
    }
}

/// Asks the exclusion set about the name, then decides on the entry.
pub fn admits_entry(name: &str, display: Display, ignore_globs: &GlobSet) -> (b: bool)
    ensures
        b == admitted(name@, display, glob_set_names(*ignore_globs)),
{
    let excluded = glob_set_is_match(ignore_globs, name);
    admits(name, display, excluded)
}

} // verus!
