//! The display mode: how far a listing goes and which entries it shows.

use vstd::prelude::*;

verus! {

/// What the caller wants to see of a directory.
#[derive(Clone, Copy, Debug, PartialEq, Eq, Structural)]
pub enum Display {
    /// Every entry, dotfiles too, headed by the `.` and `..` entries.
    DisplayAll,
    /// The entries whose name does not begin with a dot.
    DisplayOnlyVisible,
    /// The directory itself and nothing inside it.
    DisplayDirectoryItself,
    /// No mode was asked for: shown as `DisplayOnlyVisible` shows it.
    DisplayDefault,
}

impl Display {
    /// Whether a directory's contents are listed at all.
    pub open spec fn spec_lists_contents(self) -> bool {
        self != Display::DisplayDirectoryItself
    }

    /// Whether entries whose name begins with a dot are left out.
    pub open spec fn spec_hides_dotfiles(self) -> bool {
        self == Display::DisplayOnlyVisible || self == Display::DisplayDefault
    }

    /// Whether the listing of a directory is headed by `.` and `..`.
    pub open spec fn spec_adds_synthetic(self) -> bool {
        self == Display::DisplayAll
    }

    #[verifier::when_used_as_spec(spec_lists_contents)]
    pub fn lists_contents(self) -> (b: bool)
        ensures
            b == self.spec_lists_contents(),
    {
        match self {
            Display::DisplayDirectoryItself => false,
            _ => true,
        }
    }

    #[verifier::when_used_as_spec(spec_hides_dotfiles)]
    pub fn hides_dotfiles(self) -> (b: bool)
        ensures
            b == self.spec_hides_dotfiles(),
    {
        match self {
            Display::DisplayOnlyVisible => true,
            Display::DisplayDefault => true,
            _ => false,
        }
    }

    #[verifier::when_used_as_spec(spec_adds_synthetic)]
    pub fn adds_synthetic(self) -> (b: bool)
        ensures
            b == self.spec_adds_synthetic(),
    {
        match self {
            Display::DisplayAll => true,
            _ => false,
        }
    }
}

} // verus!
