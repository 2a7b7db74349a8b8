//! What has been observed on the filesystem, as plain values keyed by path.

use crate::error::IoError;
use vstd::hash_map::StringHashMap;
use vstd::prelude::*;

verus! {

/// What kind of thing a metadata record describes.
#[derive(Clone, Copy, Debug, PartialEq, Eq, Structural)]
pub enum Kind {
    File,
    Directory,
    SymLink,
    Pipe,
    Socket,
    CharDevice,
    BlockDevice,
    Other,
}

/// The metadata record of one filesystem entry.
#[derive(Clone, Copy, Debug, PartialEq, Eq, Structural)]
pub struct Record {
    pub kind: Kind,
    /// The POSIX mode bits.
    pub mode: u32,
    pub uid: u32,
    pub gid: u32,
    /// The size in bytes that the entry reports of itself.
    pub len: u64,
    /// Seconds since the epoch of the last modification, where it is known.
    pub modified: Option<i64>,
}

/// What was seen at one path.
#[derive(Debug, PartialEq, Eq)]
pub struct Probe {
    /// The target text, where the path is itself a symbolic link.
    pub link: Option<String>,
    /// The metadata of the path itself, a final link not followed.
    pub own: Result<Record, IoError>,
    /// The metadata of what the path leads to, links followed.
    pub followed: Result<Record, IoError>,
}

impl Probe {
    /// The metadata that describes the entry: that of the link itself where
    /// the path is a link, else that of what the path leads to.
    pub open spec fn spec_metadata(self) -> Result<Record, IoError> {
        if self.link is Some {
            self.own
        } else {
            self.followed
        }
    }

    pub fn metadata(&self) -> (r: &Result<Record, IoError>)
        ensures
            *r == self.spec_metadata(),
    {
        if self.link.is_some() {
            &self.own
        } else {
            &self.followed
        }
    }
}

/// A path and its final component, where it has one.
#[derive(Clone, Debug, PartialEq, Eq)]
pub struct Location {
    pub path: String,
    pub file_name: Option<String>,
}

pub struct LocationView {
    pub path: Seq<char>,
    pub file_name: Option<Seq<char>>,
}

impl View for Location {
    type V = LocationView;

    open spec fn view(&self) -> LocationView {
        LocationView {
            path: self.path@,
            file_name: match self.file_name {
                Some(n) => Some(n@),
                None => None,
            },
        }
    }
}

impl Location {
    /// The root of the filesystem, which has no final component.
    pub open spec fn spec_root() -> LocationView {
        LocationView { path: "/"@, file_name: None }
    }

    pub fn root() -> (l: Location)
        ensures
            l@ == Self::spec_root(),
    {
        Location { path: "/".to_owned(), file_name: None }
    }

    pub fn duplicate(&self) -> (l: Location)
        ensures
            l@ == self@,
    {
        let file_name = match &self.file_name {
            Some(n) => Some(n.clone()),
            None => None,
        };
        Location { path: self.path.clone(), file_name }
    }
}

/// What enumerating a directory gave: a failure to open it, or its entries in
/// the order they came, each one a location or the failure to read it.
pub type Listing = Result<Vec<Result<Location, IoError>>, IoError>;

/// What resolving a path to its canonical form gave: a failure, or the parent
/// of the canonical path, `None` where that path has no parent.
pub type Lineage = Result<Option<Location>, IoError>;

/// An observation that a traversal needs and the snapshot does not hold.
#[derive(Clone, Debug, PartialEq, Eq)]
pub enum Request {
    /// The probe of a path.
    Probe(String),
    /// The listing of a directory.
    ReadDir(String),
    /// The parent of a path's canonical form.
    Parent(String),
}

pub enum RequestView {
    Probe(Seq<char>),
    ReadDir(Seq<char>),
    Parent(Seq<char>),
}

impl View for Request {
    type V = RequestView;

    open spec fn view(&self) -> RequestView {
        match *self {
            Request::Probe(p) => RequestView::Probe(p@),
            Request::ReadDir(p) => RequestView::ReadDir(p@),
            Request::Parent(p) => RequestView::Parent(p@),
        }
    }
}

/// The views of a sequence of requests, in order.
pub open spec fn requests_view(s: Seq<Request>) -> Seq<RequestView> {
    s.map_values(|r: Request| r@)
}

pub proof fn lemma_requests_view_push(s: Seq<Request>, r: Request)
    ensures
        requests_view(s.push(r)) == requests_view(s).push(r@),
{
    assert(requests_view(s.push(r)) =~= requests_view(s).push(r@));
}

pub proof fn lemma_requests_view_add(a: Seq<Request>, b: Seq<Request>)
    ensures
        requests_view(a + b) == requests_view(a) + requests_view(b),
{
    assert(requests_view(a + b) =~= requests_view(a) + requests_view(b));
}

/// The observations as maps from path to what was seen there.
pub struct Disk {
    pub probes: Map<Seq<char>, Probe>,
    pub listings: Map<Seq<char>, Listing>,
    pub parents: Map<Seq<char>, Lineage>,
}

impl Disk {
    /// Whether the observation that `request` asks for is held.
    pub open spec fn holds(self, request: RequestView) -> bool {
        match request {
            RequestView::Probe(p) => self.probes.contains_key(p),
            RequestView::ReadDir(p) => self.listings.contains_key(p),
            RequestView::Parent(p) => self.parents.contains_key(p),
        }
    }

    /// Whether none of the observations asked for is held.
    pub open spec fn lacks_all(self, requests: Seq<RequestView>) -> bool {
        forall|k: int| 0 <= k < requests.len() ==> !self.holds(#[trigger] requests[k])
    }

    /// Whether `other` holds every observation of `self`, unchanged.
    pub open spec fn within(self, other: Disk) -> bool {
        &&& self.probes.submap_of(other.probes)
        &&& self.listings.submap_of(other.listings)
        &&& self.parents.submap_of(other.parents)
    }
}

/// The observations made so far. A later observation of a path replaces an
/// earlier one of the same kind.
pub struct Snapshot {
    probes: StringHashMap<Probe>,
    listings: StringHashMap<Listing>,
    parents: StringHashMap<Lineage>,
}

impl View for Snapshot {
    type V = Disk;

    closed spec fn view(&self) -> Disk {
        Disk { probes: self.probes@, listings: self.listings@, parents: self.parents@ }
    }
}

impl Snapshot {
    /// A snapshot that holds nothing.
    pub fn new() -> (s: Snapshot)
        ensures
            s@.probes == Map::<Seq<char>, Probe>::empty(),
            s@.listings == Map::<Seq<char>, Listing>::empty(),
            s@.parents == Map::<Seq<char>, Lineage>::empty(),
    {
        Snapshot {
            probes: StringHashMap::new(),
            listings: StringHashMap::new(),
            parents: StringHashMap::new(),
        }
    }

    /// Records what was seen at `path`.
    pub fn record_probe(&mut self, path: &str, probe: Probe)
        ensures
            final(self)@ == (Disk { probes: old(self)@.probes.insert(path@, probe), ..old(self)@ }),
    {
        self.probes.insert(path.to_owned(), probe);
    }

    /// Records what enumerating the directory at `path` gave.
    pub fn record_listing(&mut self, path: &str, listing: Listing)
        ensures
            final(self)@ == (Disk {
                listings: old(self)@.listings.insert(path@, listing),
                ..old(self)@
            }),
    {
        self.listings.insert(path.to_owned(), listing);
    }

    /// Records what resolving `path` to its canonical parent gave.
    pub fn record_parent(&mut self, path: &str, parent: Lineage)
        ensures
            final(self)@ == (Disk { parents: old(self)@.parents.insert(path@, parent), ..old(self)@ }),
    {
        self.parents.insert(path.to_owned(), parent);
    }

    /// The probe of `path`, where one was recorded.
    pub fn probe(&self, path: &str) -> (r: Option<&Probe>)
        ensures
            match r {
                Some(p) => self@.probes.contains_key(path@) && *p == self@.probes[path@],
                None => !self@.probes.contains_key(path@),
            },
    {
        self.probes.get(path)
    }

    /// The listing of `path`, where one was recorded.
    pub fn listing(&self, path: &str) -> (r: Option<&Listing>)
        ensures
            match r {
                Some(l) => self@.listings.contains_key(path@) && *l == self@.listings[path@],
                None => !self@.listings.contains_key(path@),
            },
    {
        self.listings.get(path)
    }

    /// The canonical parent of `path`, where one was recorded.
    pub fn parent(&self, path: &str) -> (r: Option<&Lineage>)
        ensures
            match r {
                Some(l) => self@.parents.contains_key(path@) && *l == self@.parents[path@],
                None => !self@.parents.contains_key(path@),
            },
    {
        self.parents.get(path)
    }

    /// Whether the observation that `request` asks for is held.
    pub fn holds(&self, request: &Request) -> (b: bool)
        ensures
            b == self@.holds(request@),
    {
        match request {
            Request::Probe(p) => self.probes.contains_key(p.as_str()),
            Request::ReadDir(p) => self.listings.contains_key(p.as_str()),
            Request::Parent(p) => self.parents.contains_key(p.as_str()),
        }
    }
}

} // verus!
