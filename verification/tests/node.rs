use dirtree::disk::{Kind, Location, Probe, Record, Request, Snapshot};
use dirtree::error::{ErrorKind, IoError, Report};
use dirtree::flags::Display;
use dirtree::meta::{
    Date, FileType, Indicator, Meta, Name, Owner, Permissions, Size, SymLink,
};

fn record(kind: Kind, mode: u32, len: u64) -> Record {
    Record { kind, mode, uid: 501, gid: 20, len, modified: Some(1_600_000_000) }
}

fn at(path: &str, name: &str) -> Location {
    Location { path: path.to_string(), file_name: Some(name.to_string()) }
}

fn failure(kind: ErrorKind, message: &str) -> IoError {
    IoError { kind, message: message.to_string() }
}

#[test]
fn a_node_is_made_from_the_metadata() {
    let probe = Probe {
        link: None,
        own: Ok(record(Kind::File, 0o4751, 42)),
        followed: Ok(record(Kind::File, 0o4751, 42)),
    };
    let node = Meta::from_path(&at("/bin/tool", "tool"), &probe).unwrap();
    assert_eq!(node.name, Name { name: "tool".to_string(), file_type: node.file_type });
    assert_eq!(node.path, "/bin/tool");
    assert_eq!(node.owner, Owner { uid: 501, gid: 20 });
    assert_eq!(node.file_type, FileType::File { uid: true, executable: true });
    assert_eq!(node.size, Size::new(42));
    assert_eq!(node.size.get_bytes(), 42);
    assert_eq!(node.date, Date::At(1_600_000_000));
    assert_eq!(node.symlink, SymLink::Absent);
    assert_eq!(node.indicator, Indicator::Executable);
    assert_eq!(node.content, None);
    assert_eq!(
        node.permissions,
        Permissions {
            user_read: true,
            user_write: true,
            user_execute: true,
            group_read: true,
            group_write: false,
            group_execute: true,
            other_read: false,
            other_write: false,
            other_execute: true,
            sticky: false,
            setgid: false,
            setuid: true,
        }
    );
}

#[test]
fn a_node_without_a_final_component_is_named_by_its_path() {
    let probe = Probe {
        link: None,
        own: Ok(record(Kind::Directory, 0o755, 4096)),
        followed: Ok(record(Kind::Directory, 0o755, 4096)),
    };
    let node =
        Meta::from_path(&Location { path: "..".to_string(), file_name: None }, &probe).unwrap();
    assert_eq!(node.name.name, "..");
    assert_eq!(node.file_type, FileType::Directory { uid: false });
    assert_eq!(node.indicator, Indicator::Directory);
}

#[test]
fn a_link_is_described_by_its_own_metadata() {
    let probe = Probe {
        link: Some("/etc/hosts".to_string()),
        own: Ok(record(Kind::SymLink, 0o777, 10)),
        followed: Ok(record(Kind::File, 0o644, 300)),
    };
    let node = Meta::from_path(&at("hosts", "hosts"), &probe).unwrap();
    assert_eq!(node.file_type, FileType::SymLink);
    assert_eq!(node.size.get_bytes(), 10);
    assert_eq!(node.symlink, SymLink::Target("/etc/hosts".to_string()));
    assert_eq!(node.indicator, Indicator::SymLink);
    assert!(node.permissions.other_write);
}

#[test]
fn what_is_no_link_is_described_by_what_the_path_leads_to() {
    let probe = Probe {
        link: None,
        own: Ok(record(Kind::SymLink, 0o777, 10)),
        followed: Ok(record(Kind::File, 0o600, 300)),
    };
    let node = Meta::from_path(&at("f", "f"), &probe).unwrap();
    assert_eq!(node.file_type, FileType::File { uid: false, executable: false });
    assert_eq!(node.size.get_bytes(), 300);
    assert_eq!(node.indicator, Indicator::Blank);
}

#[test]
fn metadata_that_cannot_be_read_fails_the_node() {
    let probe = Probe {
        link: None,
        own: Ok(record(Kind::File, 0o644, 1)),
        followed: Err(failure(ErrorKind::PermissionDenied, "denied")),
    };
    assert_eq!(
        Meta::from_path(&at("dir/f", "f"), &probe),
        Err(Report {
            path: "dir/f".to_string(),
            error: failure(ErrorKind::PermissionDenied, "denied"),
        })
    );
    let link = Probe {
        link: Some("x".to_string()),
        own: Err(failure(ErrorKind::NotFound, "raced away")),
        followed: Ok(record(Kind::File, 0o644, 1)),
    };
    assert_eq!(
        Meta::from_path(&at("l", "l"), &link),
        Err(Report { path: "l".to_string(), error: failure(ErrorKind::NotFound, "raced away") })
    );
}

#[test]
fn every_kind_has_its_type_and_mark() {
    let cases = [
        (Kind::File, FileType::File { uid: false, executable: false }, Indicator::Blank),
        (Kind::Directory, FileType::Directory { uid: false }, Indicator::Directory),
        (Kind::SymLink, FileType::SymLink, Indicator::SymLink),
        (Kind::Pipe, FileType::Pipe, Indicator::Pipe),
        (Kind::Socket, FileType::Socket, Indicator::Socket),
        (Kind::CharDevice, FileType::CharDevice, Indicator::Blank),
        (Kind::BlockDevice, FileType::BlockDevice, Indicator::Blank),
        (Kind::Other, FileType::Special, Indicator::Blank),
    ];
    for (kind, file_type, indicator) in cases {
        let r = record(kind, 0o644, 0);
        let permissions = Permissions::from(&r);
        assert!(!permissions.is_executable());
        assert_eq!(FileType::new(&r, &permissions), file_type);
        assert_eq!(Indicator::from(file_type), indicator);
        assert_eq!(file_type.is_directory(), kind == Kind::Directory);
    }
    let set = record(Kind::Directory, 0o4755, 0);
    assert_eq!(FileType::new(&set, &Permissions::from(&set)), FileType::Directory { uid: true });
}

#[test]
fn the_mode_bits_spell_the_permissions() {
    let p = Permissions::from(&record(Kind::File, 0o1000, 0));
    assert!(p.sticky && !p.setgid && !p.setuid && !p.user_read);
    let p = Permissions::from(&record(Kind::File, 0o2000, 0));
    assert!(p.setgid && !p.sticky);
    let p = Permissions::from(&record(Kind::File, 0o124, 0));
    assert!(p.user_execute && p.group_write && p.other_read);
    assert!(!p.user_read && !p.user_write && !p.group_read && !p.group_execute);
    assert!(!p.other_write && !p.other_execute);
    assert!(p.is_executable());
    let p = Permissions::from(&record(Kind::File, 0o100644, 0));
    assert!(p.user_read && p.user_write && p.group_read && p.other_read && !p.is_executable());
}

#[test]
fn a_time_that_is_not_known_is_invalid() {
    let mut r = record(Kind::File, 0o644, 0);
    assert_eq!(Date::from(&r), Date::At(1_600_000_000));
    r.modified = None;
    assert_eq!(Date::from(&r), Date::Invalid);
}

#[test]
fn a_copy_is_equal_all_the_way_down() {
    let mut disk = Snapshot::new();
    let dir = Probe {
        link: None,
        own: Ok(record(Kind::Directory, 0o755, 64)),
        followed: Ok(record(Kind::Directory, 0o755, 64)),
    };
    let file = Probe {
        link: Some("t".to_string()),
        own: Ok(record(Kind::SymLink, 0o777, 1)),
        followed: Ok(record(Kind::File, 0o644, 9)),
    };
    disk.record_probe("d", dir);
    disk.record_listing("d", Ok(vec![Ok(at("d/l", "l"))]));
    disk.record_probe("d/l", file);
    let mut node = Meta::from_path(&at("d", "d"), disk.probe("d").unwrap()).unwrap();
    let glob = globset::GlobSetBuilder::new().build().unwrap();
    node.content = node.recurse_into(1, Display::DisplayOnlyVisible, &glob, &disk).content.unwrap();
    assert_eq!(node.content.as_ref().unwrap().len(), 1);
    assert_eq!(node.duplicate(), node);
}

#[test]
fn the_snapshot_holds_what_was_recorded() {
    let mut disk = Snapshot::new();
    let probe = Request::Probe("p".to_string());
    let listing = Request::ReadDir("p".to_string());
    let parent = Request::Parent("p".to_string());
    assert!(!disk.holds(&probe) && !disk.holds(&listing) && !disk.holds(&parent));
    assert!(disk.probe("p").is_none());

    disk.record_listing("p", Err(failure(ErrorKind::NotFound, "no")));
    assert!(!disk.holds(&probe) && disk.holds(&listing) && !disk.holds(&parent));
    assert_eq!(disk.listing("p"), Some(&Err(failure(ErrorKind::NotFound, "no"))));

    disk.record_parent("p", Ok(None));
    assert!(disk.holds(&parent));
    assert_eq!(disk.parent("p"), Some(&Ok(None)));
    assert!(disk.parent("q").is_none());

    disk.record_listing("p", Ok(vec![]));
    assert_eq!(disk.listing("p"), Some(&Ok(vec![])));
}

#[test]
fn errors_and_reports_are_copied_whole() {
    let e = failure(ErrorKind::Other, "odd");
    assert_eq!(e.duplicate(), e);
    assert_eq!(
        IoError::invalid_file_name(),
        IoError { kind: ErrorKind::InvalidInput, message: "invalid file name".to_string() }
    );
    assert_eq!(Report::new("p", &e), Report { path: "p".to_string(), error: e });
    assert_eq!(Location::root(), Location { path: "/".to_string(), file_name: None });
    assert_eq!(at("a/b", "b").duplicate(), at("a/b", "b"));
}

#[test]
fn the_modes_differ_in_what_they_show() {
    assert!(Display::DisplayAll.lists_contents());
    assert!(Display::DisplayAll.adds_synthetic());
    assert!(!Display::DisplayAll.hides_dotfiles());
    assert!(Display::DisplayOnlyVisible.hides_dotfiles());
    assert!(!Display::DisplayOnlyVisible.adds_synthetic());
    assert!(Display::DisplayDefault.hides_dotfiles());
    assert!(Display::DisplayDefault.lists_contents());
    assert!(!Display::DisplayDirectoryItself.lists_contents());
    assert!(!Display::DisplayDirectoryItself.hides_dotfiles());
}
