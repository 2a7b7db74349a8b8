use dirtree::disk::{Kind, Location, Probe, Record, Request, Snapshot};
use dirtree::error::{ErrorKind, IoError, Report};
use dirtree::flags::Display;
use dirtree::meta::total::{calculate_total_file_size, checked_sum, Tally};
use dirtree::meta::{Meta, Size};
use globset::{GlobSet, GlobSetBuilder};

fn record(kind: Kind, len: u64) -> Record {
    Record { kind, mode: 0o644, uid: 1000, gid: 100, len, modified: Some(1_500_000_000) }
}

fn seen(kind: Kind, len: u64) -> Probe {
    Probe { link: None, own: Ok(record(kind, len)), followed: Ok(record(kind, len)) }
}

fn at(path: &str, name: &str) -> Location {
    Location { path: path.to_string(), file_name: Some(name.to_string()) }
}

fn failure(kind: ErrorKind, message: &str) -> IoError {
    IoError { kind, message: message.to_string() }
}

fn no_globs() -> GlobSet {
    GlobSetBuilder::new().build().unwrap()
}

const ROOT_ENTRY: u64 = 4096;
const SUB_ENTRY: u64 = 128;

/// `root/` holds the file `a` of 10 bytes and the directory `sub/`, which
/// holds the file `b` of 5 bytes.
fn sample() -> Snapshot {
    let mut disk = Snapshot::new();
    disk.record_probe("root", seen(Kind::Directory, ROOT_ENTRY));
    disk.record_listing("root", Ok(vec![Ok(at("root/a", "a")), Ok(at("root/sub", "sub"))]));
    disk.record_probe("root/a", seen(Kind::File, 10));
    disk.record_probe("root/sub", seen(Kind::Directory, SUB_ENTRY));
    disk.record_listing("root/sub", Ok(vec![Ok(at("root/sub/b", "b"))]));
    disk.record_probe("root/sub/b", seen(Kind::File, 5));
    disk
}

fn built(disk: &Snapshot, depth: usize, display: Display) -> Meta {
    let mut root = Meta::from_path(&at("root", "root"), disk.probe("root").unwrap()).unwrap();
    let survey = root.recurse_into(depth, display, &no_globs(), disk);
    assert!(survey.missing.is_empty());
    root.content = survey.content.unwrap();
    root
}

#[test]
fn the_total_of_a_whole_tree() {
    let disk = sample();
    let mut root = built(&disk, usize::MAX, Display::DisplayOnlyVisible);
    let reports = root.calculate_total_size(&disk);
    assert!(reports.is_empty());
    assert_eq!(root.size.get_bytes(), ROOT_ENTRY + 10 + SUB_ENTRY + 5);
    let kids = root.content.as_ref().unwrap();
    assert_eq!(kids[0].size.get_bytes(), 10);
    assert_eq!(kids[1].size.get_bytes(), SUB_ENTRY + 5);
    assert_eq!(kids[1].content.as_ref().unwrap()[0].size.get_bytes(), 5);
}

#[test]
fn the_total_of_a_tree_cut_at_one_level() {
    let disk = sample();
    let mut root = built(&disk, 1, Display::DisplayOnlyVisible);
    assert_eq!(root.content.as_ref().unwrap()[1].content, None);
    let reports = root.calculate_total_size(&disk);
    assert!(reports.is_empty());
    assert_eq!(root.size.get_bytes(), ROOT_ENTRY + 10 + SUB_ENTRY + 5);
    let kids = root.content.as_ref().unwrap();
    assert_eq!(kids[1].size.get_bytes(), SUB_ENTRY + 5);
    assert_eq!(kids[1].content, None);
}

#[test]
fn the_total_is_the_same_at_any_depth() {
    let disk = sample();
    let mut sizes = Vec::new();
    for depth in [0, 1, 2, 3, usize::MAX] {
        let mut root = built(&disk, depth, Display::DisplayDefault);
        root.calculate_total_size(&disk);
        sizes.push(root.size.get_bytes());
    }
    assert_eq!(sizes, vec![4239, 4239, 4239, 4239, 4239]);
    let walked = calculate_total_file_size("root", &disk, usize::MAX);
    assert_eq!(walked.total, Some(4239));
}

#[test]
fn the_walk_counts_what_the_tree_keeps_out() {
    let mut disk = sample();
    disk.record_listing(
        "root/sub",
        Ok(vec![Ok(at("root/sub/b", "b")), Ok(at("root/sub/.c", ".c"))]),
    );
    disk.record_probe("root/sub/.c", seen(Kind::File, 100));
    let mut shallow = built(&disk, 1, Display::DisplayOnlyVisible);
    shallow.calculate_total_size(&disk);
    assert_eq!(shallow.size.get_bytes(), ROOT_ENTRY + 10 + SUB_ENTRY + 5 + 100);
    let mut deep = built(&disk, 2, Display::DisplayOnlyVisible);
    deep.calculate_total_size(&disk);
    assert_eq!(deep.size.get_bytes(), ROOT_ENTRY + 10 + SUB_ENTRY + 5);
}

#[test]
fn a_second_run_counts_the_children_again() {
    let disk = sample();
    let mut root = built(&disk, usize::MAX, Display::DisplayOnlyVisible);
    root.calculate_total_size(&disk);
    let once = root.size.get_bytes();
    assert_eq!(once, 4239);
    root.calculate_total_size(&disk);
    // The first total, then `a`, then `sub` counted over: its first total and
    // `b` once more.
    assert_eq!(root.size.get_bytes(), once + 10 + (SUB_ENTRY + 5 + 5));
    assert_ne!(root.size.get_bytes(), once);

    let mut fresh = built(&disk, usize::MAX, Display::DisplayOnlyVisible);
    fresh.calculate_total_size(&disk);
    assert_eq!(fresh.size.get_bytes(), once);
}

#[test]
fn an_empty_directory_counts_for_itself() {
    let mut disk = Snapshot::new();
    disk.record_probe("root", seen(Kind::Directory, 64));
    disk.record_listing("root", Ok(vec![]));
    let mut root = built(&disk, 1, Display::DisplayOnlyVisible);
    assert_eq!(root.content, Some(vec![]));
    root.calculate_total_size(&disk);
    assert_eq!(root.size.get_bytes(), 64);
}

#[test]
fn a_file_keeps_its_size() {
    let disk = sample();
    let mut file = Meta::from_path(&at("root/a", "a"), disk.probe("root/a").unwrap()).unwrap();
    let reports = file.calculate_total_size(&disk);
    assert!(reports.is_empty());
    assert_eq!(file.size, Size::new(10));
    assert_eq!(file.total_size(&disk).total, Some(10));
}

#[test]
fn the_walk_counts_a_link_as_itself_and_other_things_for_nothing() {
    let mut disk = Snapshot::new();
    disk.record_probe("d", seen(Kind::Directory, 100));
    disk.record_listing(
        "d",
        Ok(vec![
            Ok(at("d/link", "link")),
            Ok(at("d/pipe", "pipe")),
            Ok(at("d/sock", "sock")),
            Ok(at("d/file", "file")),
        ]),
    );
    disk.record_probe(
        "d/link",
        Probe {
            link: Some("file".to_string()),
            own: Ok(record(Kind::SymLink, 4)),
            followed: Ok(record(Kind::File, 1000)),
        },
    );
    disk.record_probe("d/pipe", seen(Kind::Pipe, 50));
    disk.record_probe("d/sock", seen(Kind::Socket, 60));
    disk.record_probe("d/file", seen(Kind::File, 1000));
    let walked = calculate_total_file_size("d", &disk, usize::MAX);
    assert_eq!(walked.total, Some(100 + 4 + 1000));
    assert!(walked.reports.is_empty());
    assert!(walked.missing.is_empty());
    assert_eq!(calculate_total_file_size("d/link", &disk, usize::MAX).total, Some(4));
    assert_eq!(calculate_total_file_size("d/pipe", &disk, usize::MAX).total, Some(0));
}

#[test]
fn the_walk_does_not_follow_a_link_to_a_directory() {
    let mut disk = sample();
    disk.record_probe(
        "loop",
        Probe {
            link: Some("root".to_string()),
            own: Ok(record(Kind::SymLink, 4)),
            followed: Ok(record(Kind::Directory, ROOT_ENTRY)),
        },
    );
    disk.record_listing("loop", Ok(vec![Ok(at("root/a", "a"))]));
    let walked = calculate_total_file_size("loop", &disk, usize::MAX);
    assert_eq!(walked, Tally { total: Some(4), reports: vec![], missing: vec![] });
}

#[test]
fn the_walk_reports_what_it_cannot_read_and_goes_on() {
    let mut disk = Snapshot::new();
    disk.record_probe("d", seen(Kind::Directory, 100));
    disk.record_listing(
        "d",
        Ok(vec![
            Ok(at("d/gone", "gone")),
            Err(failure(ErrorKind::Other, "stale handle")),
            Ok(at("d/locked", "locked")),
            Ok(at("d/file", "file")),
        ]),
    );
    disk.record_probe(
        "d/gone",
        Probe {
            link: None,
            own: Err(failure(ErrorKind::NotFound, "gone")),
            followed: Err(failure(ErrorKind::NotFound, "gone")),
        },
    );
    disk.record_probe("d/locked", seen(Kind::Directory, 30));
    disk.record_listing("d/locked", Err(failure(ErrorKind::PermissionDenied, "denied")));
    disk.record_probe("d/file", seen(Kind::File, 7));
    let walked = calculate_total_file_size("d", &disk, usize::MAX);
    assert_eq!(walked.total, Some(100 + 30 + 7));
    assert_eq!(
        walked.reports,
        vec![
            Report { path: "d/gone".to_string(), error: failure(ErrorKind::NotFound, "gone") },
            Report { path: "d".to_string(), error: failure(ErrorKind::Other, "stale handle") },
            Report {
                path: "d/locked".to_string(),
                error: failure(ErrorKind::PermissionDenied, "denied"),
            },
        ]
    );

    // The same reports come from the node of `d` when it has no children.
    let mut node = Meta::from_path(&at("d", "d"), disk.probe("d").unwrap()).unwrap();
    let reports = node.calculate_total_size(&disk);
    assert_eq!(reports, walked.reports);
    assert_eq!(node.size.get_bytes(), 137);
}

#[test]
fn the_walk_stops_where_no_level_is_left() {
    let disk = sample();
    assert_eq!(calculate_total_file_size("root", &disk, 0).total, Some(ROOT_ENTRY));
    assert_eq!(calculate_total_file_size("root", &disk, 1).total, Some(ROOT_ENTRY + 10 + SUB_ENTRY));
    assert_eq!(
        calculate_total_file_size("root", &disk, 2).total,
        Some(ROOT_ENTRY + 10 + SUB_ENTRY + 5)
    );
}

#[test]
fn the_walk_lists_what_is_missing() {
    let mut disk = Snapshot::new();
    let walked = calculate_total_file_size("root", &disk, usize::MAX);
    assert_eq!(walked.total, Some(0));
    assert_eq!(walked.missing, vec![Request::Probe("root".to_string())]);

    disk.record_probe("root", seen(Kind::Directory, ROOT_ENTRY));
    let walked = calculate_total_file_size("root", &disk, usize::MAX);
    assert_eq!(walked.total, Some(ROOT_ENTRY));
    assert_eq!(walked.missing, vec![Request::ReadDir("root".to_string())]);

    disk.record_listing("root", Ok(vec![Ok(at("root/a", "a")), Ok(at("root/sub", "sub"))]));
    let walked = calculate_total_file_size("root", &disk, usize::MAX);
    assert_eq!(
        walked.missing,
        vec![Request::Probe("root/a".to_string()), Request::Probe("root/sub".to_string())]
    );

    let root = Meta::from_path(&at("root", "root"), disk.probe("root").unwrap()).unwrap();
    let survey = root.total_size(&disk);
    assert_eq!(survey.missing, walked.missing);
    for request in &survey.missing {
        assert!(!disk.holds(request));
    }
}

#[test]
fn the_heading_entries_are_walked_as_directories() {
    let mut disk = sample();
    disk.record_parent("root", Ok(Some(at("/up", "up"))));
    disk.record_probe("/up", seen(Kind::Directory, 1));
    disk.record_listing("/up", Ok(vec![Ok(at("root", "root"))]));
    let mut root = built(&disk, 1, Display::DisplayAll);
    root.calculate_total_size(&disk);
    let kids = root.content.as_ref().unwrap();
    assert_eq!(kids[0].name.name, ".");
    assert_eq!(kids[0].size.get_bytes(), 4239);
    assert_eq!(kids[1].name.name, "..");
    assert_eq!(kids[1].size.get_bytes(), 1 + 4239);
    assert_eq!(root.size.get_bytes(), ROOT_ENTRY + 4239 + 4240 + 10 + (SUB_ENTRY + 5));
}

#[test]
fn a_total_that_does_not_fit_changes_nothing() {
    let mut disk = Snapshot::new();
    disk.record_probe("root", seen(Kind::Directory, 10));
    disk.record_listing("root", Ok(vec![Ok(at("root/a", "a")), Ok(at("root/b", "b"))]));
    disk.record_probe("root/a", seen(Kind::File, u64::MAX - 10));
    disk.record_probe("root/b", seen(Kind::File, 1));
    let mut root = built(&disk, 1, Display::DisplayOnlyVisible);
    assert_eq!(root.total_size(&disk).total, None);
    let before = built(&disk, 1, Display::DisplayOnlyVisible);
    assert_eq!(root.try_calculate_total_size(&disk), None);
    assert_eq!(root, before);
    assert_eq!(calculate_total_file_size("root", &disk, usize::MAX).total, None);

    disk.record_probe("root/b", seen(Kind::File, 0));
    let mut root = built(&disk, 1, Display::DisplayOnlyVisible);
    assert_eq!(root.try_calculate_total_size(&disk), Some(vec![]));
    assert_eq!(root.size.get_bytes(), u64::MAX);
}

#[test]
fn sizes_add_up_where_they_fit() {
    assert_eq!(checked_sum(Some(2), Some(3)), Some(5));
    assert_eq!(checked_sum(Some(u64::MAX), Some(0)), Some(u64::MAX));
    assert_eq!(checked_sum(Some(u64::MAX), Some(1)), None);
    assert_eq!(checked_sum(None, Some(1)), None);
    assert_eq!(checked_sum(Some(1), None), None);
}
