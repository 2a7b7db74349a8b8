//! Building the children of a node: a traversal to a bounded depth under a
//! display mode and an exclusion set, over what a snapshot holds.

use crate::disk::{
    lemma_requests_view_add, lemma_requests_view_push, requests_view, Disk, Location, Request,
    RequestView, Snapshot,
};
use crate::error::{
    lemma_reports_view_add, lemma_reports_view_push, reports_view, IoError, IoErrorView, Report,
    ReportView,
};
use crate::filter::{admits_entry, admitted};
use crate::flags::Display;
use crate::globs::glob_set_names;
use crate::meta::{lemma_metas_view_push, metas_view, Meta, MetaView, NameView};
use globset::GlobSet;
use vstd::prelude::*;

verus! {

/// What a traversal made of a snapshot: the children of the node it started
/// at, the failures it survived, and the observations it looked for and did
/// not find. While `missing` holds anything the rest is provisional: what
/// hangs on a missing observation is left out of it.
#[derive(Debug, PartialEq, Eq)]
pub struct Survey {
    pub content: Result<Option<Vec<Meta>>, IoError>,
    pub reports: Vec<Report>,
    pub missing: Vec<Request>,
}

pub struct SurveyView {
    pub content: Result<Option<Seq<MetaView>>, IoErrorView>,
    pub reports: Seq<ReportView>,
    pub missing: Seq<RequestView>,
}

impl View for Survey {
    type V = SurveyView;

    open spec fn view(&self) -> SurveyView {
        SurveyView {
            content: match self.content {
                Ok(Some(v)) => Ok(Some(metas_view(v@))),
                Ok(None) => Ok(None),
                Err(e) => Err(e@),
            },
            reports: reports_view(self.reports@),
            missing: requests_view(self.missing@),
        }
    }
}

impl SurveyView {
    /// Whether nothing is missing, so that the survey is final.
    pub open spec fn complete(self) -> bool {
        self.missing.len() == 0
    }

    /// The survey of a node that is not traversed.
    pub open spec fn untraversed() -> SurveyView {
        SurveyView { content: Ok(None), reports: Seq::empty(), missing: Seq::empty() }
    }
}

/// The children that head a listing before the directory's own entries, or
/// the failure to make them, and what is missing to make them.
pub struct Heading {
    pub content: Result<Seq<MetaView>, IoErrorView>,
    pub missing: Seq<RequestView>,
}

/// What has been gathered of a directory's entries so far.
pub struct Gathered {
    pub content: Seq<MetaView>,
    pub reports: Seq<ReportView>,
    pub missing: Seq<RequestView>,
}

/// Whether a traversal with `depth` levels left goes into `node` at all: it
/// needs a level, a mode that lists contents, and a directory.
pub open spec fn descends(node: MetaView, depth: nat, display: Display) -> bool {
    depth > 0 && display.spec_lists_contents() && node.file_type is Directory
}

/// The node under another name.
pub open spec fn renamed(node: MetaView, name: Seq<char>) -> MetaView {
    MetaView { name: NameView { name, ..node.name }, ..node }
}

/// The node with other children.
pub open spec fn with_content(node: MetaView, content: Option<Seq<MetaView>>) -> MetaView {
    MetaView { content, ..node }
}

/// Where the `..` entry of a directory points: the parent of its canonical
/// path, or the root where that path has no parent.
pub open spec fn parent_location(parent: Option<Location>) -> crate::disk::LocationView {
    match parent {
        Some(l) => l@,
        None => Location::spec_root(),
    }
}

/// The `.` and `..` entries that head the listing of `node` under a mode that
/// adds them: a copy of the node named `.`, then the node of the canonical
/// parent named `..`. A failure to resolve the parent or to make its node is
/// the failure of the whole listing. Under any other mode, nothing.
pub open spec fn spec_synthetic(node: MetaView, display: Display, disk: Disk) -> Heading {
    if !display.spec_adds_synthetic() {
        Heading { content: Ok(Seq::empty()), missing: Seq::empty() }
    } else if !disk.parents.contains_key(node.path) {
        Heading { content: Ok(Seq::empty()), missing: seq![RequestView::Parent(node.path)] }
    } else {
        match disk.parents[node.path] {
            Err(e) => Heading { content: Err(e@), missing: Seq::empty() },
            Ok(parent) => {
                let location = parent_location(parent);
                if !disk.probes.contains_key(location.path) {
                    Heading {
                        content: Ok(Seq::empty()),
                        missing: seq![RequestView::Probe(location.path)],
                    }
                } else {
                    match Meta::spec_from_path(location, disk.probes[location.path]) {
                        Err(report) => Heading {
                            content: Err(report.error),
                            missing: Seq::empty(),
                        },
                        Ok(parent_node) => Heading {
                            content: Ok(seq![renamed(node, "."@), renamed(parent_node, ".."@)]),
                            missing: Seq::empty(),
                        },
                    }
                }
            },
        }
    }
}

/// The children of `node` built with `depth` levels left, under `display` and
/// the excluded names, from what `disk` holds.
///
/// Nothing is built, and `content` is `None`, where the traversal does not go
/// into the node (see [`descends`]) or the directory could not be opened,
/// which is reported. Otherwise the children are the synthetic entries
/// followed by what [`spec_entries`] gathers from the directory's entries
/// with one level less.
pub open spec fn spec_recurse_into(
    node: MetaView,
    depth: nat,
    display: Display,
    excluded: Set<Seq<char>>,
    disk: Disk,
) -> SurveyView
    decreases depth, 0int, 0int,
{
    if !descends(node, depth, display) {
        SurveyView::untraversed()
    } else if !disk.listings.contains_key(node.path) {
        SurveyView {
            content: Ok(None),
            reports: Seq::empty(),
            missing: seq![RequestView::ReadDir(node.path)],
        }
    } else {
        match disk.listings[node.path] {
            Err(e) => SurveyView {
                content: Ok(None),
                reports: seq![ReportView { path: node.path, error: e@ }],
                missing: Seq::empty(),
            },
            Ok(entries) => {
                let head = spec_synthetic(node, display, disk);
                match head.content {
                    Err(e) => SurveyView {
                        content: Err(e),
                        reports: Seq::empty(),
                        missing: head.missing,
                    },
                    Ok(first) => spec_entries(
                        entries@,
                        0,
                        (depth - 1) as nat,
                        display,
                        excluded,
                        disk,
                        Gathered { content: first, reports: Seq::empty(), missing: head.missing },
                    ),
                }
            },
        }
    }
}

/// What the entries from the `i`-th on add to `acc`, in order.
///
/// An entry that could not be read, or that has no name, fails the whole
/// listing. An entry whose name is not admitted is passed over. Of an
/// admitted entry the node is made: where that fails, the failure is
/// reported and the entry passed over; else the node's own children are built
/// with `below` levels left and the node is added, without children where
/// building them failed, which is then reported.
pub open spec fn spec_entries(
    entries: Seq<Result<Location, IoError>>,
    i: int,
    below: nat,
    display: Display,
    excluded: Set<Seq<char>>,
    disk: Disk,
    acc: Gathered,
) -> SurveyView
    decreases below, 1int, entries.len() - i,
{
    if i < 0 || i >= entries.len() {
        SurveyView { content: Ok(Some(acc.content)), reports: acc.reports, missing: acc.missing }
    } else {
        match entries[i] {
            Err(e) => SurveyView { content: Err(e@), reports: acc.reports, missing: acc.missing },
            Ok(location) => match location@.file_name {
                None => SurveyView {
                    content: Err(IoError::spec_invalid_file_name()),
                    reports: acc.reports,
                    missing: acc.missing,
                },
                Some(name) => spec_entries(
                    entries,
                    i + 1,
                    below,
                    display,
                    excluded,
                    disk,
                    spec_entry(location@, name, below, display, excluded, disk, acc),
                ),
            },
        }
    }
}

/// What one named entry adds to `acc`.
pub open spec fn spec_entry(
    location: crate::disk::LocationView,
    name: Seq<char>,
    below: nat,
    display: Display,
    excluded: Set<Seq<char>>,
    disk: Disk,
    acc: Gathered,
) -> Gathered
    decreases below, 0int, 1int,
{
    if !admitted(name, display, excluded) {
        acc
    } else if !disk.probes.contains_key(location.path) {
        Gathered { missing: acc.missing.push(RequestView::Probe(location.path)), ..acc }
    } else {
        match Meta::spec_from_path(location, disk.probes[location.path]) {
            Err(report) => Gathered { reports: acc.reports.push(report), ..acc },
            Ok(child) => {
                let sub = spec_recurse_into(child, below, display, excluded, disk);
                match sub.content {
                    Ok(content) => Gathered {
                        content: acc.content.push(with_content(child, content)),
                        reports: acc.reports + sub.reports,
                        missing: acc.missing + sub.missing,
                    },
                    Err(e) => Gathered {
                        content: acc.content.push(child),
                        reports: (acc.reports + sub.reports).push(
                            ReportView { path: location.path, error: e },
                        ),
                        missing: acc.missing + sub.missing,
                    },
                }
            },
        }
    }
}

impl Survey {
    /// The survey of a node that is not traversed.
    fn untraversed() -> (s: Survey)
        ensures
            s@ == SurveyView::untraversed(),
    {
        let s = Survey { content: Ok(None), reports: Vec::new(), missing: Vec::new() };
        assert(s@.reports =~= Seq::empty());
        assert(s@.missing =~= Seq::empty());
        s
    }
}

impl Meta {
    /// Builds the children of the node from the snapshot, to `depth` levels,
    /// and lists what the snapshot lacks for it.
    pub fn recurse_into(
        &self,
        depth: usize,
        display: Display,
        ignore_globs: &GlobSet,
        disk: &Snapshot,
    ) -> (r: Survey)
        ensures
            r@ == spec_recurse_into(
                self@,
                depth as nat,
                display,
                glob_set_names(*ignore_globs),
                disk@,
            ),
        decreases depth, 0int, 0int,
    {
        if depth == 0 {
            return Survey::untraversed();
        }
        if !display.lists_contents() {
            return Survey::untraversed();
        }
        if !self.file_type.is_directory() {
            return Survey::untraversed();
        }
        let listing = match disk.listing(self.path.as_str()) {
            Some(listing) => listing,
            None => {
                let mut missing: Vec<Request> = Vec::new();
                missing.push(Request::ReadDir(self.path.clone()));
                proof {
                    lemma_requests_view_push(Seq::empty(), Request::ReadDir(self.path));
                    assert(requests_view(Seq::<Request>::empty()) =~= Seq::empty());
                }
                let r = Survey { content: Ok(None), reports: Vec::new(), missing };
                assert(r@.missing =~= seq![RequestView::ReadDir(self@.path)]);
                assert(r@.reports =~= Seq::empty());
                return r;
            },
        };
        let entries = match listing {
            Ok(entries) => entries,
            Err(e) => {
                let mut reports: Vec<Report> = Vec::new();
                reports.push(Report::new(self.path.as_str(), e));
                let r = Survey { content: Ok(None), reports, missing: Vec::new() };
                assert(r@.reports =~= seq![ReportView { path: self@.path, error: e@ }]);
                assert(r@.missing =~= Seq::empty());
                return r;
            },
        };
        let (head, missing) = self.synthetic(display, disk);
        match head {
            Err(e) => {
                let r = Survey { content: Err(e), reports: Vec::new(), missing };
                assert(r@.reports =~= Seq::empty());
                r
            },
            Ok(content) => {
                let reports: Vec<Report> = Vec::new();
                assert(reports_view(reports@) =~= Seq::empty());
                gather(entries, depth - 1, display, ignore_globs, disk, content, reports, missing)
            },
        }
    }

    /// Makes the `.` and `..` entries that head the listing of the node.
    fn synthetic(&self, display: Display, disk: &Snapshot) -> (r: (
        Result<Vec<Meta>, IoError>,
        Vec<Request>,
    ))
        ensures
            match r.0 {
                Ok(v) => spec_synthetic(self@, display, disk@).content == Ok::<
                    Seq<MetaView>,
                    IoErrorView,
                >(metas_view(v@)),
                Err(e) => spec_synthetic(self@, display, disk@).content == Err::<
                    Seq<MetaView>,
                    IoErrorView,
                >(e@),
            },
            requests_view(r.1@) == spec_synthetic(self@, display, disk@).missing,
    {
        let mut content: Vec<Meta> = Vec::new();
        let mut missing: Vec<Request> = Vec::new();
        assert(metas_view(content@) =~= Seq::empty());
        assert(requests_view(missing@) =~= Seq::empty());
        if !display.adds_synthetic() {
            return (Ok(content), missing);
        }
        let parent = match disk.parent(self.path.as_str()) {
            Some(parent) => parent,
            None => {
                missing.push(Request::Parent(self.path.clone()));
                assert(requests_view(missing@) =~= seq![RequestView::Parent(self@.path)]);
                return (Ok(content), missing);
            },
        };
        let location = match parent {
            Err(e) => {
                return (Err(e.duplicate()), missing);
            },
            Ok(Some(l)) => l.duplicate(),
            Ok(None) => Location::root(),
        };
        let probe = match disk.probe(location.path.as_str()) {
            Some(probe) => probe,
            None => {
                missing.push(Request::Probe(location.path));
                assert(requests_view(missing@) =~= seq![RequestView::Probe(location@.path)]);
                return (Ok(content), missing);
            },
        };
        match Meta::from_path(&location, probe) {
            Err(report) => (Err(report.error), missing),
            Ok(parent_node) => {
                let current_meta = self.duplicate().named(".");
                let parent_meta = parent_node.named("..");
                (Ok(pair(current_meta, parent_meta)), missing)
            },
        }
    }

    /// The node under the name `name`.
    fn named(self, name: &str) -> (m: Meta)
        ensures
            m@ == renamed(self@, name@),
    {
        let mut m = self;
        m.name.name = name.to_owned();
        m
    }
}

/// The two nodes in order.
fn pair(first: Meta, second: Meta) -> (v: Vec<Meta>)
    ensures
        metas_view(v@) == seq![first@, second@],
{
    let mut v: Vec<Meta> = Vec::new();
    proof {
        lemma_metas_view_push(v@, first);
        lemma_metas_view_push(v@.push(first), second);
    }
    v.push(first);
    v.push(second);
    assert(metas_view(v@) =~= seq![first@, second@]);
    v
}

/// Works through the entries of a directory, adding to what was gathered.
fn gather(
    entries: &Vec<Result<Location, IoError>>,
    below: usize,
    display: Display,
    ignore_globs: &GlobSet,
    disk: &Snapshot,
    content: Vec<Meta>,
    reports: Vec<Report>,
    missing: Vec<Request>,
) -> (r: Survey)
    ensures
        r@ == spec_entries(
            entries@,
            0,
            below as nat,
            display,
            glob_set_names(*ignore_globs),
            disk@,
            Gathered {
                content: metas_view(content@),
                reports: reports_view(reports@),
                missing: requests_view(missing@),
            },
        ),
    decreases below, 1int, 0int,
{
    let ghost excluded = glob_set_names(*ignore_globs);
    let ghost goal = spec_entries(
        entries@,
        0,
        below as nat,
        display,
        excluded,
        disk@,
        Gathered {
            content: metas_view(content@),
            reports: reports_view(reports@),
            missing: requests_view(missing@),
        },
    );
    let mut nodes = content;
    let mut noted = reports;
    let mut lacking = missing;
    let mut i: usize = 0;
    while i < entries.len()
        invariant
            i <= entries.len(),
            excluded == glob_set_names(*ignore_globs),
            goal == spec_entries(
                entries@,
                0,
                below as nat,
                display,
                excluded,
                disk@,
                Gathered {
                    content: metas_view(content@),
                    reports: reports_view(reports@),
                    missing: requests_view(missing@),
                },
            ),
            goal == spec_entries(
                entries@,
                i as int,
                below as nat,
                display,
                excluded,
                disk@,
                Gathered {
                    content: metas_view(nodes@),
                    reports: reports_view(noted@),
                    missing: requests_view(lacking@),
                },
            ),
        decreases entries.len() - i,
    {
        let ghost acc = Gathered {
            content: metas_view(nodes@),
            reports: reports_view(noted@),
            missing: requests_view(lacking@),
        };
        let location = match &entries[i] {
            Ok(location) => location,
            Err(e) => {
                let r = Survey { content: Err(e.duplicate()), reports: noted, missing: lacking };
                assert(r@ == goal);
                return r;
            },
        };
        let name = match &location.file_name {
            Some(name) => name,
            None => {
                let r = Survey { content: Err(IoError::invalid_file_name()), reports: noted, missing: lacking };
                assert(r@ == goal);
                return r;
            },
        };
        assert(entries@[i as int] == Ok::<Location, IoError>(*location));
        assert(location@.file_name == Some(name@));
        assert(goal == spec_entries(
            entries@,
            i + 1,
            below as nat,
            display,
            excluded,
            disk@,
            spec_entry(location@, name@, below as nat, display, excluded, disk@, acc),
        ));
        if admits_entry(name.as_str(), display, ignore_globs) {
            match disk.probe(location.path.as_str()) {
                None => {
                    proof {
                        lemma_requests_view_push(lacking@, Request::Probe(location.path));
                    }
                    lacking.push(Request::Probe(location.path.clone()));
                },
                Some(probe) => match Meta::from_path(location, probe) {
                    Err(report) => {
                        proof {
                            lemma_reports_view_push(noted@, report);
                        }
                        noted.push(report);
                    },
                    Ok(child) => {
                        let mut entry_meta = child;
                        let sub = entry_meta.recurse_into(below, display, ignore_globs, disk);
                        let mut sub_reports = sub.reports;
                        let mut sub_missing = sub.missing;
                        proof {
                            lemma_reports_view_add(noted@, sub_reports@);
                            lemma_requests_view_add(lacking@, sub_missing@);
                        }
                        noted.append(&mut sub_reports);
                        lacking.append(&mut sub_missing);
                        match sub.content {
                            Ok(children) => {
                                entry_meta.content = children;
                            },
                            Err(e) => {
                                let report = Report::new(location.path.as_str(), &e);
                                proof {
                                    lemma_reports_view_push(noted@, report);
                                }
                                noted.push(report);
                            },
                        }
                        proof {
                            lemma_metas_view_push(nodes@, entry_meta);
                        }
                        nodes.push(entry_meta);
                    },
                },
            }
        }
        assert(spec_entry(location@, name@, below as nat, display, excluded, disk@, acc) == (
        Gathered {
            content: metas_view(nodes@),
            reports: reports_view(noted@),
            missing: requests_view(lacking@),
        }));
        i += 1;
    }
    let r = Survey { content: Ok(Some(nodes)), reports: noted, missing: lacking };
    assert(r@ == goal);
    r
}

} // verus!
