//! What holds of the total sizes, and how the sum over a tree agrees with the
//! walk of the snapshot.

use crate::disk::{Disk, Kind, Location, LocationView};
use crate::error::IoError;
use crate::filter::admitted;
use crate::flags::Display;
use crate::meta::total::{
    lemma_totals_push, spec_sized, spec_total, spec_totals, spec_walk, spec_walk_entries,
    walk_levels, Walked,
};
use crate::meta::tree::{spec_entries, spec_entry, spec_recurse_into, with_content, Gathered};
use crate::meta::tree_laws::content_or_none;
use crate::meta::{Meta, MetaView};
use vstd::prelude::*;

verus! {

/// A second run over a tree that was already given its totals counts the
/// children again: what it finds as the directory's own size is the first
/// total, and it adds to it the totals of the children as they now stand. So
/// the second total is the first only where those come to nothing.
pub proof fn law_second_run_counts_children_again(node: MetaView, disk: Disk)
    requires
        node.file_type is Directory,
        node.content is Some,
        spec_total(node, disk).total <= u64::MAX,
    ensures
        ({
            let once = spec_sized(node, disk);
            &&& once.content is Some
            &&& spec_total(once, disk).total == spec_total(node, disk).total + spec_totals(
                once.content->0,
                disk,
            ).total
            &&& spec_total(once, disk).total >= spec_total(node, disk).total
        }),
{
}

/// The sum of the walks of the entries from the `i`-th on.
pub open spec fn walk_sum(
    entries: Seq<Result<Location, IoError>>,
    i: int,
    disk: Disk,
    levels: nat,
) -> nat
    decreases entries.len() - i,
{
    if i < 0 || i >= entries.len() {
        0
    } else {
        let first: nat = match entries[i] {
            Err(_) => 0,
            Ok(location) => spec_walk(location.path@, disk, levels).total,
        };
        first + walk_sum(entries, i + 1, disk, levels)
    }
}

/// Walking the entries adds the sum of their walks to what was there.
pub proof fn lemma_walk_entries_total(
    dir: Seq<char>,
    entries: Seq<Result<Location, IoError>>,
    i: int,
    disk: Disk,
    levels: nat,
    acc: Walked,
)
    requires
        0 <= i <= entries.len(),
    ensures
        spec_walk_entries(dir, entries, i, disk, levels, acc).total == acc.total + walk_sum(
            entries,
            i,
            disk,
            levels,
        ),
    decreases entries.len() - i,
{
    if i < entries.len() {
        let next = match entries[i] {
            Err(e) => acc.reporting(crate::error::ReportView { path: dir, error: e@ }),
            Ok(location) => acc.plus(spec_walk(location.path@, disk, levels)),
        };
        lemma_walk_entries_total(dir, entries, i + 1, disk, levels, next);
    }
}

/// Whether the sum over a tree and the walk of the snapshot can agree on
/// what lies at `path` and beneath it: the directories nest at most `levels`
/// deep, the mode and the exclusions let every named entry in, and whatever
/// is neither file, link nor directory has no size. What the snapshot does
/// not hold, or holds as a failure, agrees by itself.
pub open spec fn plain(
    path: Seq<char>,
    disk: Disk,
    levels: nat,
    display: Display,
    excluded: Set<Seq<char>>,
) -> bool
    decreases levels, 0int, 0int,
{
    if !disk.probes.contains_key(path) {
        true
    } else {
        match disk.probes[path].spec_metadata() {
            Err(_) => true,
            Ok(record) => match record.kind {
                Kind::File => true,
                Kind::SymLink => true,
                Kind::Directory => if !disk.listings.contains_key(path) {
                    true
                } else {
                    match disk.listings[path] {
                        Err(_) => true,
                        Ok(entries) => levels > 0 && plain_entries(
                            entries@,
                            0,
                            disk,
                            (levels - 1) as nat,
                            display,
                            excluded,
                        ),
                    }
                },
                _ => record.len == 0,
            },
        }
    }
}

/// Whether each of the entries from the `i`-th on is plain.
pub open spec fn plain_entries(
    entries: Seq<Result<Location, IoError>>,
    i: int,
    disk: Disk,
    levels: nat,
    display: Display,
    excluded: Set<Seq<char>>,
) -> bool
    decreases levels, 1int, entries.len() - i,
{
    if i < 0 || i >= entries.len() {
        true
    } else {
        &&& match entries[i] {
            Err(_) => true,
            Ok(location) => {
                &&& location@.file_name matches Some(name) ==> admitted(name, display, excluded)
                &&& plain(location.path@, disk, levels, display, excluded)
            },
        }
        &&& plain_entries(entries, i + 1, disk, levels, display, excluded)
    }
}

/// Beneath what is plain to `levels`, a walk that may go deeper sums up the
/// same.
pub proof fn lemma_walk_deeper_same(
    path: Seq<char>,
    disk: Disk,
    levels: nat,
    deeper: nat,
    display: Display,
    excluded: Set<Seq<char>>,
)
    requires
        plain(path, disk, levels, display, excluded),
        deeper >= levels,
    ensures
        spec_walk(path, disk, deeper).total == spec_walk(path, disk, levels).total,
    decreases levels, 0int, 0int,
{
    if disk.probes.contains_key(path) {
        match disk.probes[path].spec_metadata() {
            Err(_) => {},
            Ok(record) => {
                if record.kind == Kind::Directory && disk.listings.contains_key(path) {
                    match disk.listings[path] {
                        Err(_) => {},
                        Ok(entries) => {
                            let own = Walked::of(record.len as nat);
                            lemma_walk_entries_total(
                                path,
                                entries@,
                                0,
                                disk,
                                (levels - 1) as nat,
                                own,
                            );
                            lemma_walk_entries_total(
                                path,
                                entries@,
                                0,
                                disk,
                                (deeper - 1) as nat,
                                own,
                            );
                            lemma_walk_sum_deeper_same(
                                entries@,
                                0,
                                disk,
                                (levels - 1) as nat,
                                (deeper - 1) as nat,
                                display,
                                excluded,
                            );
                        },
                    }
                }
            },
        }
    }
}

/// The same of the entries of a directory.
pub proof fn lemma_walk_sum_deeper_same(
    entries: Seq<Result<Location, IoError>>,
    i: int,
    disk: Disk,
    levels: nat,
    deeper: nat,
    display: Display,
    excluded: Set<Seq<char>>,
)
    requires
        0 <= i <= entries.len(),
        plain_entries(entries, i, disk, levels, display, excluded),
        deeper >= levels,
    ensures
        walk_sum(entries, i, disk, deeper) == walk_sum(entries, i, disk, levels),
    decreases levels, 1int, entries.len() - i,
{
    if i < entries.len() {
        match entries[i] {
            Err(_) => {},
            Ok(location) => {
                lemma_walk_deeper_same(location.path@, disk, levels, deeper, display, excluded);
            },
        }
        lemma_walk_sum_deeper_same(entries, i + 1, disk, levels, deeper, display, excluded);
    }
}

/// The node at `location` with the children built for it with `depth`
/// levels, none where building them failed.
pub open spec fn built(
    location: LocationView,
    depth: nat,
    display: Display,
    excluded: Set<Seq<char>>,
    disk: Disk,
) -> MetaView {
    let made = Meta::spec_from_path(location, disk.probes[location.path])->Ok_0;
    with_content(made, content_or_none(spec_recurse_into(made, depth, display, excluded, disk)))
}

/// The total of a node built to any depth is the walk of the snapshot from
/// its path, where what lies there is plain and the mode adds no heading
/// entries.
pub proof fn lemma_built_total_is_walk(
    location: LocationView,
    depth: nat,
    display: Display,
    excluded: Set<Seq<char>>,
    disk: Disk,
    levels: nat,
)
    requires
        !display.spec_adds_synthetic(),
        disk.probes.contains_key(location.path),
        Meta::spec_from_path(location, disk.probes[location.path]) is Ok,
        plain(location.path, disk, levels, display, excluded),
        levels <= walk_levels(),
    ensures
        spec_total(built(location, depth, display, excluded, disk), disk).total == spec_walk(
            location.path,
            disk,
            levels,
        ).total,
    decreases depth, 0int, 0int,
{
    let made = Meta::spec_from_path(location, disk.probes[location.path])->Ok_0;
    let record = disk.probes[location.path].spec_metadata()->Ok_0;
    let survey = spec_recurse_into(made, depth, display, excluded, disk);
    let node = built(location, depth, display, excluded, disk);
    if made.file_type is Directory {
        assert(record.kind == Kind::Directory);
        match content_or_none(survey) {
            None => {
                lemma_walk_deeper_same(
                    location.path,
                    disk,
                    levels,
                    walk_levels(),
                    display,
                    excluded,
                );
            },
            Some(children) => {
                let entries = disk.listings[location.path]->Ok_0;
                let own = Walked::of(record.len as nat);
                let start = Gathered {
                    content: Seq::empty(),
                    reports: Seq::empty(),
                    missing: Seq::empty(),
                };
                assert(survey == spec_entries(
                    entries@,
                    0,
                    (depth - 1) as nat,
                    display,
                    excluded,
                    disk,
                    start,
                ));
                lemma_entries_total_is_walk_sum(
                    entries@,
                    0,
                    (depth - 1) as nat,
                    display,
                    excluded,
                    disk,
                    start,
                    (levels - 1) as nat,
                );
                lemma_walk_entries_total(
                    location.path,
                    entries@,
                    0,
                    disk,
                    (levels - 1) as nat,
                    own,
                );
                assert(spec_totals(start.content, disk).total == 0);
            },
        }
    } else {
        assert(node == made);
    }
}

/// The same of the entries of a directory: the nodes they add count for the
/// sum of the walks of the entries.
pub proof fn lemma_entries_total_is_walk_sum(
    entries: Seq<Result<Location, IoError>>,
    i: int,
    below: nat,
    display: Display,
    excluded: Set<Seq<char>>,
    disk: Disk,
    acc: Gathered,
    levels: nat,
)
    requires
        0 <= i <= entries.len(),
        !display.spec_adds_synthetic(),
        plain_entries(entries, i, disk, levels, display, excluded),
        levels <= walk_levels(),
    ensures
        spec_entries(entries, i, below, display, excluded, disk, acc).content matches Ok(
            Some(children),
        ) ==> spec_totals(children, disk).total == spec_totals(acc.content, disk).total
            + walk_sum(entries, i, disk, levels),
    decreases below, 1int, entries.len() - i,
{
    if i < entries.len() {
        match entries[i] {
            Err(_) => {},
            Ok(location) => match location@.file_name {
                None => {},
                Some(name) => {
                    let next = spec_entry(location@, name, below, display, excluded, disk, acc);
                    if disk.probes.contains_key(location.path@) && Meta::spec_from_path(
                        location@,
                        disk.probes[location.path@],
                    ) is Ok {
                        lemma_built_total_is_walk(
                            location@,
                            below,
                            display,
                            excluded,
                            disk,
                            levels,
                        );
                        let node = built(location@, below, display, excluded, disk);
                        assert(next.content == acc.content.push(node));
                        lemma_totals_push(acc.content, node, disk);
                    }
                    lemma_entries_total_is_walk_sum(
                        entries,
                        i + 1,
                        below,
                        display,
                        excluded,
                        disk,
                        next,
                        levels,
                    );
                },
            },
        }
    }
}

/// The sum over the tree agrees with the walk of the snapshot: a directory
/// built with any number of levels and then given its total comes to the
/// same size as with any other number, be it one level or as many as the
/// directories nest, since either comes to the walk from its path.
///
/// This is stated of what is plain (see [`plain`]) under a mode that adds no
/// heading entries: an entry that the mode or the exclusions keep out of the
/// tree is still walked, and a heading entry is counted in the tree and not
/// in the walk.
pub proof fn law_total_same_at_any_depth(
    location: LocationView,
    shallow: nat,
    deep: nat,
    display: Display,
    excluded: Set<Seq<char>>,
    disk: Disk,
    levels: nat,
)
    requires
        !display.spec_adds_synthetic(),
        disk.probes.contains_key(location.path),
        Meta::spec_from_path(location, disk.probes[location.path]) is Ok,
        plain(location.path, disk, levels, display, excluded),
        levels <= walk_levels(),
    ensures
        spec_total(built(location, shallow, display, excluded, disk), disk).total == spec_total(
            built(location, deep, display, excluded, disk),
            disk,
        ).total,
        spec_total(built(location, shallow, display, excluded, disk), disk).total == spec_walk(
            location.path,
            disk,
            walk_levels(),
        ).total,
{
    lemma_built_total_is_walk(location, shallow, display, excluded, disk, levels);
    lemma_built_total_is_walk(location, deep, display, excluded, disk, levels);
    lemma_walk_deeper_same(location.path, disk, levels, walk_levels(), display, excluded);
}

/// Walking entries never takes a missing observation off the list.
pub proof fn lemma_walk_entries_missing_grows(
    dir: Seq<char>,
    entries: Seq<Result<Location, IoError>>,
    i: int,
    disk: Disk,
    levels: nat,
    acc: Walked,
)
    requires
        0 <= i <= entries.len(),
    ensures
        spec_walk_entries(dir, entries, i, disk, levels, acc).missing.len() >= acc.missing.len(),
    decreases entries.len() - i,
{
    if i < entries.len() {
        let next = match entries[i] {
            Err(e) => acc.reporting(crate::error::ReportView { path: dir, error: e@ }),
            Ok(location) => acc.plus(spec_walk(location.path@, disk, levels)),
        };
        lemma_walk_entries_missing_grows(dir, entries, i + 1, disk, levels, next);
    }
}

/// A walk that misses nothing is final: whatever more is observed, as long
/// as what was held stays as it was, the walk sums up and reports the same.
pub proof fn law_complete_walk_is_final(path: Seq<char>, disk: Disk, more: Disk, levels: nat)
    requires
        disk.within(more),
        spec_walk(path, disk, levels).complete(),
    ensures
        spec_walk(path, more, levels) == spec_walk(path, disk, levels),
    decreases levels, 0int, 0int,
{
    if disk.probes.contains_key(path) {
        match disk.probes[path].spec_metadata() {
            Err(_) => {},
            Ok(record) => {
                if record.kind == Kind::Directory && levels > 0 {
                    match disk.listings[path] {
                        Err(_) => {},
                        Ok(entries) => {
                            lemma_complete_walk_entries_are_final(
                                path,
                                entries@,
                                0,
                                disk,
                                more,
                                (levels - 1) as nat,
                                Walked::of(record.len as nat),
                            );
                        },
                    }
                }
            },
        }
    }
}

/// The same of the entries of a directory.
pub proof fn lemma_complete_walk_entries_are_final(
    dir: Seq<char>,
    entries: Seq<Result<Location, IoError>>,
    i: int,
    disk: Disk,
    more: Disk,
    levels: nat,
    acc: Walked,
)
    requires
        0 <= i <= entries.len(),
        disk.within(more),
        spec_walk_entries(dir, entries, i, disk, levels, acc).missing.len() == 0,
    ensures
        spec_walk_entries(dir, entries, i, more, levels, acc) == spec_walk_entries(
            dir,
            entries,
            i,
            disk,
            levels,
            acc,
        ),
    decreases levels, 1int, entries.len() - i,
{
    if i < entries.len() {
        let next = match entries[i] {
            Err(e) => acc.reporting(crate::error::ReportView { path: dir, error: e@ }),
            Ok(location) => acc.plus(spec_walk(location.path@, disk, levels)),
        };
        lemma_walk_entries_missing_grows(dir, entries, i + 1, disk, levels, next);
        match entries[i] {
            Err(_) => {},
            Ok(location) => {
                law_complete_walk_is_final(location.path@, disk, more, levels);
            },
        }
        lemma_complete_walk_entries_are_final(dir, entries, i + 1, disk, more, levels, next);
    }
}

/// A total that misses nothing is final: whatever more is observed, as long
/// as what was held stays as it was, the total and the sizes given to the
/// tree are the same.
pub proof fn law_complete_total_is_final(node: MetaView, disk: Disk, more: Disk)
    requires
        disk.within(more),
        spec_total(node, disk).complete(),
    ensures
        spec_total(node, more) == spec_total(node, disk),
        spec_sized(node, more) == spec_sized(node, disk),
    decreases node, 1int,
{
    if node.file_type is Directory {
        match node.content {
            Some(children) => {
                lemma_complete_totals_are_final(children, disk, more);
            },
            None => {
                law_complete_walk_is_final(node.path, disk, more, walk_levels());
            },
        }
    }
}

/// The same of a sequence of nodes.
pub proof fn lemma_complete_totals_are_final(nodes: Seq<MetaView>, disk: Disk, more: Disk)
    requires
        disk.within(more),
        spec_totals(nodes, disk).complete(),
    ensures
        spec_totals(nodes, more) == spec_totals(nodes, disk),
        crate::meta::total::spec_sized_all(nodes, more) == crate::meta::total::spec_sized_all(
            nodes,
            disk,
        ),
    decreases nodes, 0int,
{
    if nodes.len() > 0 {
        lemma_complete_totals_are_final(nodes.drop_last(), disk, more);
        law_complete_total_is_final(nodes.last(), disk, more);
    }
}

/// What a walk lists as missing is missing indeed: the snapshot holds none
/// of it.
pub proof fn law_walk_missing_is_not_held(path: Seq<char>, disk: Disk, levels: nat)
    ensures
        disk.lacks_all(spec_walk(path, disk, levels).missing),
    decreases levels, 0int, 0int,
{
    if disk.probes.contains_key(path) {
        match disk.probes[path].spec_metadata() {
            Err(_) => {},
            Ok(record) => {
                if record.kind == Kind::Directory && levels > 0 && disk.listings.contains_key(
                    path,
                ) {
                    match disk.listings[path] {
                        Err(_) => {},
                        Ok(entries) => {
                            lemma_walk_entries_missing_is_not_held(
                                path,
                                entries@,
                                0,
                                disk,
                                (levels - 1) as nat,
                                Walked::of(record.len as nat),
                            );
                        },
                    }
                }
            },
        }
    }
}

/// The same of the entries of a directory.
pub proof fn lemma_walk_entries_missing_is_not_held(
    dir: Seq<char>,
    entries: Seq<Result<Location, IoError>>,
    i: int,
    disk: Disk,
    levels: nat,
    acc: Walked,
)
    requires
        0 <= i <= entries.len(),
        disk.lacks_all(acc.missing),
    ensures
        disk.lacks_all(spec_walk_entries(dir, entries, i, disk, levels, acc).missing),
    decreases levels, 1int, entries.len() - i,
{
    if i < entries.len() {
        let next = match entries[i] {
            Err(e) => acc.reporting(crate::error::ReportView { path: dir, error: e@ }),
            Ok(location) => acc.plus(spec_walk(location.path@, disk, levels)),
        };
        match entries[i] {
            Err(_) => {},
            Ok(location) => {
                law_walk_missing_is_not_held(location.path@, disk, levels);
            },
        }
        lemma_walk_entries_missing_is_not_held(dir, entries, i + 1, disk, levels, next);
    }
}

/// What a total lists as missing is missing indeed.
pub proof fn law_total_missing_is_not_held(node: MetaView, disk: Disk)
    ensures
        disk.lacks_all(spec_total(node, disk).missing),
    decreases node, 1int,
{
    if node.file_type is Directory {
        match node.content {
            Some(children) => {
                lemma_totals_missing_is_not_held(children, disk);
            },
            None => {
                law_walk_missing_is_not_held(node.path, disk, walk_levels());
            },
        }
    }
}

/// The same of a sequence of nodes.
pub proof fn lemma_totals_missing_is_not_held(nodes: Seq<MetaView>, disk: Disk)
    ensures
        disk.lacks_all(spec_totals(nodes, disk).missing),
    decreases nodes, 0int,
{
    if nodes.len() > 0 {
        lemma_totals_missing_is_not_held(nodes.drop_last(), disk);
        law_total_missing_is_not_held(nodes.last(), disk);
    }
}

} // verus!
