//! Failures of the filesystem, as plain values, and the reports made of those
//! that a traversal survives.

use vstd::prelude::*;

verus! {

/// The broad reason of a failure.
#[derive(Clone, Copy, Debug, PartialEq, Eq, Structural)]
pub enum ErrorKind {
    NotFound,
    PermissionDenied,
    InvalidInput,
    Other,
}

/// A failure to read something from the filesystem.
#[derive(Clone, Debug, PartialEq, Eq)]
pub struct IoError {
    pub kind: ErrorKind,
    pub message: String,
}

pub struct IoErrorView {
    pub kind: ErrorKind,
    pub message: Seq<char>,
}

impl View for IoError {
    type V = IoErrorView;

    open spec fn view(&self) -> IoErrorView {
        IoErrorView { kind: self.kind, message: self.message@ }
    }
}

impl IoError {
    /// The failure of a directory entry that has no usable name.
    pub open spec fn spec_invalid_file_name() -> IoErrorView {
        IoErrorView { kind: ErrorKind::InvalidInput, message: "invalid file name"@ }
    }

    pub fn invalid_file_name() -> (e: IoError)
        ensures
            e@ == Self::spec_invalid_file_name(),
    {
        IoError { kind: ErrorKind::InvalidInput, message: "invalid file name".to_owned() }
    }

    /// A copy with the same kind and message.
    pub fn duplicate(&self) -> (e: IoError)
        ensures
            e@ == self@,
    {
        IoError { kind: self.kind, message: self.message.clone() }
    }
}

/// A failure that did not stop the traversal: the path it concerns and what
/// went wrong. The caller shows these to the operator.
#[derive(Clone, Debug, PartialEq, Eq)]
pub struct Report {
    pub path: String,
    pub error: IoError,
}

pub struct ReportView {
    pub path: Seq<char>,
    pub error: IoErrorView,
}

impl View for Report {
    type V = ReportView;

    open spec fn view(&self) -> ReportView {
        ReportView { path: self.path@, error: self.error@ }
    }
}

impl Report {
    pub fn new(path: &str, error: &IoError) -> (r: Report)
        ensures
            r@ == (ReportView { path: path@, error: error@ }),
    {
        Report { path: path.to_owned(), error: error.duplicate() }
    }
}

/// The views of a sequence of reports, in order.
pub open spec fn reports_view(s: Seq<Report>) -> Seq<ReportView> {
    s.map_values(|r: Report| r@)
}

pub proof fn lemma_reports_view_push(s: Seq<Report>, r: Report)
    ensures
        reports_view(s.push(r)) == reports_view(s).push(r@),
{
    assert(reports_view(s.push(r)) =~= reports_view(s).push(r@));
}

pub proof fn lemma_reports_view_add(a: Seq<Report>, b: Seq<Report>)
    ensures
        reports_view(a + b) == reports_view(a) + reports_view(b),
{
    assert(reports_view(a + b) =~= reports_view(a) + reports_view(b));
}

} // verus!
