//! The total size of a directory: its own size and that of everything
//! beneath it, summed over the tree where the tree holds the children and
//! over the snapshot where it does not.

use crate::disk::{
    lemma_requests_view_add, lemma_requests_view_push, requests_view, Disk, Kind, Location,
    Request, RequestView, Snapshot,
};
use crate::error::{
    lemma_reports_view_add, lemma_reports_view_push, reports_view, IoError, Report, ReportView,
};
use crate::meta::{Meta, MetaView, Size};
use vstd::prelude::*;

verus! {

/// A sum of sizes with the failures met and the observations missed on the
/// way. The sum is a natural number: it has no upper limit.
pub struct Walked {
    pub total: nat,
    pub reports: Seq<ReportView>,
    pub missing: Seq<RequestView>,
}

impl Walked {
    /// A sum without failures or missing observations.
    pub open spec fn of(total: nat) -> Walked {
        Walked { total, reports: Seq::empty(), missing: Seq::empty() }
    }

    /// This sum and `next` after it.
    pub open spec fn plus(self, next: Walked) -> Walked {
        Walked {
            total: self.total + next.total,
            reports: self.reports + next.reports,
            missing: self.missing + next.missing,
        }
    }

    /// This sum and one more failure.
    pub open spec fn reporting(self, report: ReportView) -> Walked {
        Walked { reports: self.reports.push(report), ..self }
    }

    /// This sum and one more missing observation.
    pub open spec fn lacking(self, request: RequestView) -> Walked {
        Walked { missing: self.missing.push(request), ..self }
    }

    /// Whether nothing is missing, so that the sum is final.
    pub open spec fn complete(self) -> bool {
        self.missing.len() == 0
    }
}

/// The sum as a `u64`, or `None` where it does not fit.
pub open spec fn capped(total: nat) -> Option<u64> {
    if total <= u64::MAX {
        Some(total as u64)
    } else {
        None
    }
}

/// The sum of two sizes, or `None` where either is `None` or the sum does not
/// fit.
pub open spec fn spec_checked_sum(a: Option<u64>, b: Option<u64>) -> Option<u64> {
    match (a, b) {
        (Some(x), Some(y)) => capped((x + y) as nat),
        _ => None,
    }
}

/// A sum of sizes as the machine holds it: `total` is `None` where the sum
/// does not fit a `u64`.
#[derive(Debug, PartialEq, Eq)]
pub struct Tally {
    pub total: Option<u64>,
    pub reports: Vec<Report>,
    pub missing: Vec<Request>,
}

impl Tally {
    /// Whether this tally holds the sum `w`.
    pub open spec fn renders(self, w: Walked) -> bool {
        &&& self.total == capped(w.total)
        &&& reports_view(self.reports@) == w.reports
        &&& requests_view(self.missing@) == w.missing
    }

    /// A sum without failures or missing observations.
    fn of(total: u64) -> (t: Tally)
        ensures
            t.renders(Walked::of(total as nat)),
    {
        let t = Tally { total: Some(total), reports: Vec::new(), missing: Vec::new() };
        assert(reports_view(t.reports@) =~= Seq::empty());
        assert(requests_view(t.missing@) =~= Seq::empty());
        t
    }

    /// This tally and one more failure.
    fn reporting(self, path: &str, error: &IoError) -> (t: Tally)
        ensures
            forall|w: Walked|
                self.renders(w) ==> #[trigger] t.renders(
                    w.reporting(ReportView { path: path@, error: error@ }),
                ),
    {
        let mut t = self;
        let report = Report::new(path, error);
        proof {
            lemma_reports_view_push(t.reports@, report);
        }
        t.reports.push(report);
        t
    }

    /// This tally and one more missing observation.
    fn lacking(self, request: Request) -> (t: Tally)
        ensures
            forall|w: Walked| self.renders(w) ==> #[trigger] t.renders(w.lacking(request@)),
    {
        let mut t = self;
        proof {
            lemma_requests_view_push(t.missing@, request);
        }
        t.missing.push(request);
        t
    }

    /// This tally and `next` after it.
    fn plus(self, next: Tally) -> (t: Tally)
        ensures
            forall|w: Walked, n: Walked|
                self.renders(w) && next.renders(n) ==> #[trigger] t.renders(w.plus(n)),
    {
        let mut t = self;
        let mut next = next;
        proof {
            lemma_reports_view_add(t.reports@, next.reports@);
            lemma_requests_view_add(t.missing@, next.missing@);
        }
        t.total = checked_sum(t.total, next.total);
        t.reports.append(&mut next.reports);
        t.missing.append(&mut next.missing);
        t
    }
}

/// Adds two sizes where both are there and the sum fits.
pub fn checked_sum(a: Option<u64>, b: Option<u64>) -> (r: Option<u64>)
    ensures
        r == spec_checked_sum(a, b),
        forall|x: nat, y: nat|
            #![trigger capped(x), capped(y)]
            a == capped(x) && b == capped(y) ==> r == capped(x + y),
{
    match (a, b) {
        (Some(x), Some(y)) => x.checked_add(y),
        _ => None,
    }
}

/// What a walk of the snapshot from `path` sums up, going at most `levels`
/// directories deep.
///
/// The entry is described by the metadata that [`Probe::spec_metadata`]
/// chooses, so a link counts as itself. A file or a link counts for its own
/// size; a directory for its own size and the walk of each of its entries;
/// anything else for nothing. A failure to read the metadata is reported and
/// counts for nothing; a failure to open the directory is reported and leaves
/// the directory's own size. A directory met when no level is left counts for
/// its own size alone.
///
/// [`Probe::spec_metadata`]: crate::disk::Probe::spec_metadata
pub open spec fn spec_walk(path: Seq<char>, disk: Disk, levels: nat) -> Walked
    decreases levels, 0int, 0int,
{
    if !disk.probes.contains_key(path) {
        Walked::of(0).lacking(RequestView::Probe(path))
    } else {
        match disk.probes[path].spec_metadata() {
            Err(e) => Walked::of(0).reporting(ReportView { path, error: e@ }),
            Ok(record) => match record.kind {
                Kind::File => Walked::of(record.len as nat),
                Kind::SymLink => Walked::of(record.len as nat),
                Kind::Directory => if levels == 0 {
                    Walked::of(record.len as nat)
                } else if !disk.listings.contains_key(path) {
                    Walked::of(record.len as nat).lacking(RequestView::ReadDir(path))
                } else {
                    match disk.listings[path] {
                        Err(e) => Walked::of(record.len as nat).reporting(
                            ReportView { path, error: e@ },
                        ),
                        Ok(entries) => spec_walk_entries(
                            path,
                            entries@,
                            0,
                            disk,
                            (levels - 1) as nat,
                            Walked::of(record.len as nat),
                        ),
                    }
                },
                _ => Walked::of(0),
            },
        }
    }
}

/// What the entries of the directory `dir` from the `i`-th on add to `acc`:
/// the walk of each entry, and a report against the directory for each entry
/// that could not be read.
pub open spec fn spec_walk_entries(
    dir: Seq<char>,
    entries: Seq<Result<Location, IoError>>,
    i: int,
    disk: Disk,
    levels: nat,
    acc: Walked,
) -> Walked
    decreases levels, 1int, entries.len() - i,
{
    if i < 0 || i >= entries.len() {
        acc
    } else {
        let next = match entries[i] {
            Err(e) => acc.reporting(ReportView { path: dir, error: e@ }),
            Ok(location) => acc.plus(spec_walk(location.path@, disk, levels)),
        };
        spec_walk_entries(dir, entries, i + 1, disk, levels, next)
    }
}

/// How deep the walk beneath an untraversed directory of the tree may go: as
/// deep as the machine counts.
pub open spec fn walk_levels() -> nat {
    usize::MAX as nat
}

/// The total size of `node`: for anything but a directory its own size; for a
/// directory whose children the tree holds, its own size and the totals of
/// the children; for a directory without them, the walk of the snapshot from
/// its path.
pub open spec fn spec_total(node: MetaView, disk: Disk) -> Walked
    decreases node, 1int,
{
    if !(node.file_type is Directory) {
        Walked::of(node.size.spec_get_bytes() as nat)
    } else {
        match node.content {
            Some(children) => Walked::of(node.size.spec_get_bytes() as nat).plus(
                spec_totals(children, disk),
            ),
            None => spec_walk(node.path, disk, walk_levels()),
        }
    }
}

/// The totals of the nodes, summed in order.
pub open spec fn spec_totals(nodes: Seq<MetaView>, disk: Disk) -> Walked
    decreases nodes, 0int,
{
    if nodes.len() == 0 {
        Walked::of(0)
    } else {
        spec_totals(nodes.drop_last(), disk).plus(spec_total(nodes.last(), disk))
    }
}

/// The node with every directory in it given its total as its size, from the
/// leaves up. Nothing else changes.
pub open spec fn spec_sized(node: MetaView, disk: Disk) -> MetaView
    decreases node, 1int,
{
    if !(node.file_type is Directory) {
        node
    } else {
        MetaView {
            size: Size::spec_new(spec_total(node, disk).total as u64),
            content: match node.content {
                Some(children) => Some(spec_sized_all(children, disk)),
                None => None,
            },
            ..node
        }
    }
}

/// Each of the nodes sized, in order.
pub open spec fn spec_sized_all(nodes: Seq<MetaView>, disk: Disk) -> Seq<MetaView>
    decreases nodes, 0int,
{
    if nodes.len() == 0 {
        Seq::empty()
    } else {
        spec_sized_all(nodes.drop_last(), disk).push(spec_sized(nodes.last(), disk))
    }
}

/// Walks the snapshot from `path` and sums up the sizes, at most `levels`
/// directories deep.
pub fn calculate_total_file_size(path: &str, disk: &Snapshot, levels: usize) -> (t: Tally)
    ensures
        t.renders(spec_walk(path@, disk@, levels as nat)),
    decreases levels, 0int, 0int,
{
    let probe = match disk.probe(path) {
        Some(probe) => probe,
        None => {
            let request = Request::Probe(path.to_owned());
            assert(request@ == RequestView::Probe(path@));
            let t = Tally::of(0).lacking(request);
            assert(t.renders(Walked::of(0).lacking(request@)));
            return t;
        },
    };
    let record = match probe.metadata() {
        Ok(record) => record,
        Err(e) => {
            let t = Tally::of(0).reporting(path, e);
            assert(t.renders(Walked::of(0).reporting(ReportView { path: path@, error: e@ })));
            return t;
        },
    };
    let own = Tally::of(record.len);
    let ghost walked = Walked::of(record.len as nat);
    match record.kind {
        Kind::File => own,
        Kind::SymLink => own,
        Kind::Directory => {
            if levels == 0 {
                return own;
            }
            match disk.listing(path) {
                None => {
                    let request = Request::ReadDir(path.to_owned());
                    assert(request@ == RequestView::ReadDir(path@));
                    let t = own.lacking(request);
                    assert(t.renders(walked.lacking(request@)));
                    t
                },
                Some(Err(e)) => {
                    let t = own.reporting(path, e);
                    assert(t.renders(walked.reporting(ReportView { path: path@, error: e@ })));
                    t
                },
                Some(Ok(entries)) => walk_entries(path, entries, disk, levels - 1, own, Ghost(walked)),
            }
        },
        _ => Tally::of(0),
    }
}

/// Walks each entry of the directory `dir` and adds it to `start`.
fn walk_entries(
    dir: &str,
    entries: &Vec<Result<Location, IoError>>,
    disk: &Snapshot,
    levels: usize,
    start: Tally,
    Ghost(acc): Ghost<Walked>,
) -> (t: Tally)
    requires
        start.renders(acc),
    ensures
        t.renders(spec_walk_entries(dir@, entries@, 0, disk@, levels as nat, acc)),
    decreases levels, 1int, 0int,
{
    let mut tally = start;
    let ghost mut walked = acc;
    let mut i: usize = 0;
    while i < entries.len()
        invariant
            i <= entries.len(),
            tally.renders(walked),
            spec_walk_entries(dir@, entries@, 0, disk@, levels as nat, acc) == spec_walk_entries(
                dir@,
                entries@,
                i as int,
                disk@,
                levels as nat,
                walked,
            ),
        decreases entries.len() - i,
    {
        match &entries[i] {
            Err(e) => {
                let ghost next = walked.reporting(ReportView { path: dir@, error: e@ });
                tally = tally.reporting(dir, e);
                assert(tally.renders(next));
                proof {
                    walked = next;
                }
            },
            Ok(location) => {
                let sub = calculate_total_file_size(location.path.as_str(), disk, levels);
                let ghost next = walked.plus(spec_walk(location.path@, disk@, levels as nat));
                tally = tally.plus(sub);
                assert(tally.renders(next));
                proof {
                    walked = next;
                }
            },
        }
        i += 1;
    }
    tally
}

/// The totals of a sequence of nodes and of one more node behind them.
pub proof fn lemma_totals_push(nodes: Seq<MetaView>, node: MetaView, disk: Disk)
    ensures
        spec_totals(nodes.push(node), disk) == spec_totals(nodes, disk).plus(
            spec_total(node, disk),
        ),
        spec_sized_all(nodes.push(node), disk) == spec_sized_all(nodes, disk).push(
            spec_sized(node, disk),
        ),
{
    assert(nodes.push(node).drop_last() =~= nodes);
}

/// The total of the first nodes of a sequence is no more than that of all.
pub proof fn lemma_totals_prefix(nodes: Seq<MetaView>, disk: Disk, i: int)
    requires
        0 <= i <= nodes.len(),
    ensures
        spec_totals(nodes.take(i), disk).total <= spec_totals(nodes, disk).total,
    decreases nodes.len(),
{
    if i == nodes.len() {
        assert(nodes.take(i) =~= nodes);
    } else {
        lemma_totals_prefix(nodes.drop_last(), disk, i);
        assert(nodes.drop_last().take(i) =~= nodes.take(i));
    }
}

impl Meta {
    /// Sums up the total size of the node without changing it, and lists
    /// what the snapshot lacks for it.
    pub fn total_size(&self, disk: &Snapshot) -> (t: Tally)
        ensures
            t.renders(spec_total(self@, disk@)),
        decreases self, 1int,
    {
        if !self.file_type.is_directory() {
            return Tally::of(self.size.get_bytes());
        }
        match &self.content {
            Some(metas) => {
                let own = Tally::of(self.size.get_bytes());
                let rest = total_sizes(metas, disk);
                let t = own.plus(rest);
                assert(t.renders(
                    Walked::of(self.size.bytes as nat).plus(
                        spec_totals(crate::meta::metas_view(metas@), disk@),
                    ),
                ));
                t
            },
            None => calculate_total_file_size(self.path.as_str(), disk, usize::MAX),
        }
    }

    /// Gives every directory in the node its total size, from the leaves up,
    /// and returns the failures met in the walks beneath the directories
    /// that have no children in the tree.
    ///
    /// A second call on the same tree counts the children again: the sizes
    /// it finds are already totals.
    pub fn calculate_total_size(&mut self, disk: &Snapshot) -> (reports: Vec<Report>)
        requires
            spec_total(old(self)@, disk@).total <= u64::MAX,
        ensures
            final(self)@ == spec_sized(old(self)@, disk@),
            reports_view(reports@) == spec_total(old(self)@, disk@).reports,
            final(self).size.bytes == spec_total(old(self)@, disk@).total,
        decreases *old(self), 1int,
    {
        if !self.file_type.is_directory() {
            let reports: Vec<Report> = Vec::new();
            assert(reports_view(reports@) =~= Seq::empty());
            return reports;
        }
        let own: u64 = self.size.get_bytes();
        let (total, reports) = match &mut self.content {
            Some(metas) => calculate_total_sizes(metas, disk, own),
            None => {
                let t = calculate_total_file_size(self.path.as_str(), disk, usize::MAX);
                let total: u64 = match t.total {
                    Some(total) => total,
                    None => 0,
                };
                (total, t.reports)
            },
        };
        self.size = Size::new(total);
        reports
    }

    /// Gives every directory in the node its total size where every total
    /// fits a `u64`; where one does not, changes nothing and returns `None`.
    pub fn try_calculate_total_size(&mut self, disk: &Snapshot) -> (r: Option<Vec<Report>>)
        ensures
            match r {
                Some(reports) => {
                    &&& spec_total(old(self)@, disk@).total <= u64::MAX
                    &&& final(self)@ == spec_sized(old(self)@, disk@)
                    &&& reports_view(reports@) == spec_total(old(self)@, disk@).reports
                },
                None => {
                    &&& spec_total(old(self)@, disk@).total > u64::MAX
                    &&& *final(self) == *old(self)
                },
            },
    {
        let survey = self.total_size(disk);
        if survey.total.is_none() {
            None
        } else {
            Some(self.calculate_total_size(disk))
        }
    }
}

/// Sums up the totals of the nodes.
fn total_sizes(metas: &Vec<Meta>, disk: &Snapshot) -> (t: Tally)
    ensures
        t.renders(spec_totals(crate::meta::metas_view(metas@), disk@)),
    decreases metas, 0int,
{
    let mut tally = Tally::of(0);
    let ghost mut walked = Walked::of(0);
    let mut i: usize = 0;
    assert(metas@.take(0) =~= Seq::empty());
    while i < metas.len()
        invariant
            i <= metas.len(),
            tally.renders(walked),
            walked == spec_totals(crate::meta::metas_view(metas@.take(i as int)), disk@),
        decreases metas.len() - i,
    {
        let sub = metas[i].total_size(disk);
        let ghost next = walked.plus(spec_total(metas@[i as int]@, disk@));
        tally = tally.plus(sub);
        assert(tally.renders(next));
        proof {
            assert(metas@.take(i + 1) =~= metas@.take(i as int).push(metas@[i as int]));
            crate::meta::lemma_metas_view_push(metas@.take(i as int), metas@[i as int]);
            lemma_totals_push(
                crate::meta::metas_view(metas@.take(i as int)),
                metas@[i as int]@,
                disk@,
            );
            walked = next;
        }
        i += 1;
    }
    assert(metas@.take(i as int) =~= metas@);
    tally
}

/// Gives each of the nodes its total size and adds the totals to `own`.
fn calculate_total_sizes(metas: &mut Vec<Meta>, disk: &Snapshot, own: u64) -> (r: (
    u64,
    Vec<Report>,
))
    requires
        own + spec_totals(crate::meta::metas_view(old(metas)@), disk@).total <= u64::MAX,
    ensures
        crate::meta::metas_view(final(metas)@) == spec_sized_all(
            crate::meta::metas_view(old(metas)@),
            disk@,
        ),
        r.0 == own + spec_totals(crate::meta::metas_view(old(metas)@), disk@).total,
        reports_view(r.1@) == spec_totals(crate::meta::metas_view(old(metas)@), disk@).reports,
    decreases *old(metas), 0int,
{
    let ghost before = crate::meta::metas_view(old(metas)@);
    let mut size_accumulated: u64 = own;
    let mut reports: Vec<Report> = Vec::new();
    let mut i: usize = 0;
    proof {
        assert(metas@.take(0) =~= Seq::empty());
        assert(old(metas)@.take(0) =~= Seq::empty());
        assert(reports_view(reports@) =~= Seq::empty());
    }
    while i < metas.len()
        invariant
            i <= metas.len(),
            metas@.len() == old(metas)@.len(),
            before == crate::meta::metas_view(old(metas)@),
            own + spec_totals(before, disk@).total <= u64::MAX,
            forall|j: int| i <= j < metas@.len() ==> metas@[j] == old(metas)@[j],
            crate::meta::metas_view(metas@.take(i as int)) == spec_sized_all(
                crate::meta::metas_view(old(metas)@.take(i as int)),
                disk@,
            ),
            size_accumulated == own + spec_totals(
                crate::meta::metas_view(old(metas)@.take(i as int)),
                disk@,
            ).total,
            reports_view(reports@) == spec_totals(
                crate::meta::metas_view(old(metas)@.take(i as int)),
                disk@,
            ).reports,
        decreases metas.len() - i,
    {
        let ghost prev = metas@;
        let ghost done = old(metas)@.take(i as int);
        let ghost child = old(metas)@[i as int];
        proof {
            assert(old(metas)@.take(i + 1) =~= done.push(child));
            crate::meta::lemma_metas_view_push(done, child);
            lemma_totals_push(crate::meta::metas_view(done), child@, disk@);
            crate::meta::lemma_metas_view(old(metas)@);
            crate::meta::lemma_metas_view(old(metas)@.take(i + 1));
            assert(crate::meta::metas_view(old(metas)@.take(i + 1)) =~= before.take(i + 1));
            lemma_totals_prefix(before, disk@, i + 1);
        }
        let mut sub = metas[i].calculate_total_size(disk);
        let bytes: u64 = metas[i].size.get_bytes();
        proof {
            assert(metas@.take(i as int) =~= prev.take(i as int));
            assert(metas@.take(i + 1) =~= metas@.take(i as int).push(metas@[i as int]));
            crate::meta::lemma_metas_view_push(metas@.take(i as int), metas@[i as int]);
            lemma_reports_view_add(reports@, sub@);
        }
        size_accumulated = size_accumulated + bytes;
        reports.append(&mut sub);
        i += 1;
    }
    proof {
        assert(metas@.take(i as int) =~= metas@);
        assert(old(metas)@.take(i as int) =~= old(metas)@);
    }
    (size_accumulated, reports)
}

} // verus!
