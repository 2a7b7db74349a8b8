//! The nodes of the tree and how one is made from what was seen at a path.

pub mod date;
pub mod filetype;
pub mod indicator;
pub mod name;
pub mod owner;
pub mod permissions;
pub mod size;
pub mod symlink;
pub mod total;
pub mod total_laws;
pub mod tree;
pub mod tree_laws;

pub use self::date::Date;
pub use self::filetype::FileType;
pub use self::indicator::Indicator;
pub use self::name::{Name, NameView};
pub use self::owner::Owner;
pub use self::permissions::Permissions;
pub use self::size::Size;
pub use self::symlink::{SymLink, SymLinkView};
pub use crate::flags::Display;

use crate::disk::{Location, LocationView, Probe};
use crate::error::{Report, ReportView};
use vstd::prelude::*;

verus! {

/// One filesystem entry with what a listing shows of it. `content` is `None`
/// where the entry was not traversed, and holds the children, possibly none,
/// where it was.
#[derive(Debug, PartialEq, Eq)]
pub struct Meta {
    pub name: Name,
    pub path: String,
    pub permissions: Permissions,
    pub date: Date,
    pub owner: Owner,
    pub file_type: FileType,
    pub size: Size,
    pub symlink: SymLink,
    pub indicator: Indicator,
    pub content: Option<Vec<Meta>>,
}

/// A node as a mathematical value: texts as sequences of characters and the
/// children as a sequence of such values.
pub struct MetaView {
    pub name: NameView,
    pub path: Seq<char>,
    pub permissions: Permissions,
    pub date: Date,
    pub owner: Owner,
    pub file_type: FileType,
    pub size: Size,
    pub symlink: SymLinkView,
    pub indicator: Indicator,
    pub content: Option<Seq<MetaView>>,
}

/// The value of a node.
pub open spec fn meta_view(m: Meta) -> MetaView
    decreases m, 1int,
{
    MetaView {
        name: m.name@,
        path: m.path@,
        permissions: m.permissions,
        date: m.date,
        owner: m.owner,
        file_type: m.file_type,
        size: m.size,
        symlink: m.symlink@,
        indicator: m.indicator,
        content: match m.content {
            Some(v) => Some(metas_view(v@)),
            None => None,
        },
    }
}

/// The values of a sequence of nodes, in order.
pub open spec fn metas_view(s: Seq<Meta>) -> Seq<MetaView>
    decreases s, 0int,
{
    if s.len() == 0 {
        Seq::empty()
    } else {
        metas_view(s.drop_last()).push(meta_view(s.last()))
    }
}

/// `metas_view` maps node by node.
pub proof fn lemma_metas_view(s: Seq<Meta>)
    ensures
        metas_view(s).len() == s.len(),
        forall|i: int| 0 <= i < s.len() ==> #[trigger] metas_view(s)[i] == meta_view(s[i]),
    decreases s.len(),
{
    if s.len() > 0 {
        lemma_metas_view(s.drop_last());
    }
}

/// The values of `s` with the value of one more node behind them.
pub proof fn lemma_metas_view_push(s: Seq<Meta>, m: Meta)
    ensures
        metas_view(s.push(m)) == metas_view(s).push(meta_view(m)),
{
    assert(s.push(m).drop_last() =~= s);
}

impl View for Meta {
    type V = MetaView;

    open spec fn view(&self) -> MetaView {
        meta_view(*self)
    }
}

impl Meta {
    /// The node that describes `location`, given what was seen there: the
    /// failure to read its metadata, with the path it concerns, or a node
    /// without children whose attributes all derive from the metadata chosen
    /// by [`Probe::spec_metadata`].
    pub open spec fn spec_from_path(location: LocationView, probe: Probe) -> Result<
        MetaView,
        ReportView,
    > {
        match probe.spec_metadata() {
            Err(e) => Err(ReportView { path: location.path, error: e@ }),
            Ok(record) => {
                let permissions = Permissions::spec_from(record);
                let file_type = FileType::spec_new(record, permissions);
                Ok(
                    MetaView {
                        name: Name::spec_new(location, file_type),
                        path: location.path,
                        permissions,
                        date: Date::spec_from(record),
                        owner: Owner::spec_from(record),
                        file_type,
                        size: Size::spec_from(record),
                        symlink: SymLink::spec_from(probe),
                        indicator: Indicator::spec_from(file_type),
                        content: None,
                    },
                )
            },
        }
    }

    /// Makes the node of one path from what was seen there.
    pub fn from_path(location: &Location, probe: &Probe) -> (r: Result<Meta, Report>)
        ensures
            match r {
                Ok(m) => Self::spec_from_path(location@, *probe) == Ok::<MetaView, ReportView>(m@),
                Err(e) => Self::spec_from_path(location@, *probe) == Err::<MetaView, ReportView>(
                    e@,
                ),
            },
    {
        match probe.metadata() {
            Err(e) => Err(Report::new(location.path.as_str(), e)),
            Ok(record) => {
                let owner = Owner::from(record);
                let permissions = Permissions::from(record);
                let file_type = FileType::new(record, &permissions);
                let name = Name::new(location, file_type);
                Ok(
                    Meta {
                        path: location.path.clone(),
                        symlink: SymLink::from(probe),
                        size: Size::from(record),
                        date: Date::from(record),
                        indicator: Indicator::from(file_type),
                        owner,
                        permissions,
                        name,
                        file_type,
                        content: None,
                    },
                )
            },
        }
    }

    /// A copy of the node and of everything beneath it.
    pub fn duplicate(&self) -> (m: Meta)
        ensures
            m@ == self@,
        decreases self, 1int,
    {
        let content = match &self.content {
            Some(v) => Some(duplicate_all(v)),
            None => None,
        };
        Meta {
            name: self.name.duplicate(),
            path: self.path.clone(),
            permissions: self.permissions,
            date: self.date,
            owner: self.owner,
            file_type: self.file_type,
            size: self.size,
            symlink: self.symlink.duplicate(),
            indicator: self.indicator,
            content,
        }
    }
}

/// A copy of each node, in order.
pub fn duplicate_all(v: &Vec<Meta>) -> (out: Vec<Meta>)
    ensures
        metas_view(out@) == metas_view(v@),
    decreases v, 0int,
{
    let mut out: Vec<Meta> = Vec::new();
    let mut i: usize = 0;
    while i < v.len()
        invariant
            i <= v.len(),
            metas_view(out@) == metas_view(v@.take(i as int)),
        decreases v.len() - i,
    {
        let c = v[i].duplicate();
        proof {
            lemma_metas_view_push(out@, c);
            assert(v@.take(i + 1) =~= v@.take(i as int).push(v@[i as int]));
            lemma_metas_view_push(v@.take(i as int), v@[i as int]);
        }
        out.push(c);
        i += 1;
    }
    proof {
        assert(v@.take(i as int) =~= v@);
    }
    out
}

} // verus!
