use crate::disk::Probe;
use vstd::prelude::*;

verus! {

/// Where a symbolic link leads.
#[derive(Clone, Debug, PartialEq, Eq)]
pub enum SymLink {
    /// The entry is no link.
    Absent,
    /// The entry is a link, and this is its target.
    Target(String),
    /// The entry is a link whose target could not be reached.
    Unreadable,
}

pub enum SymLinkView {
    Absent,
    Target(Seq<char>),
    Unreadable,
}

impl View for SymLink {
    type V = SymLinkView;

    open spec fn view(&self) -> SymLinkView {
        match *self {
            SymLink::Absent => SymLinkView::Absent,
            SymLink::Target(t) => SymLinkView::Target(t@),
            SymLink::Unreadable => SymLinkView::Unreadable,
        }
    }
}

impl SymLink {
    /// The link attribute of what `probe` saw: absent where the path is no
    /// link, the target where following the link reached something, and
    /// unreadable where it reached nothing.
    pub open spec fn spec_from(probe: Probe) -> SymLinkView {
        match probe.link {
            None => SymLinkView::Absent,
            Some(target) => if probe.followed is Ok {
                SymLinkView::Target(target@)
            } else {
                SymLinkView::Unreadable
            },
        }
    }

    pub fn from(probe: &Probe) -> (s: SymLink)
        ensures
            s@ == Self::spec_from(*probe),
    {
        match &probe.link {
            None => SymLink::Absent,
            Some(target) => if probe.followed.is_ok() {
                SymLink::Target(target.clone())
            } else {
                SymLink::Unreadable
            },
        }
    }

    pub fn duplicate(&self) -> (s: SymLink)
        ensures
            s@ == self@,
    {
        match self {
            SymLink::Absent => SymLink::Absent,
            SymLink::Target(t) => SymLink::Target(t.clone()),
            SymLink::Unreadable => SymLink::Unreadable,
        }
    }
}

} // verus!
