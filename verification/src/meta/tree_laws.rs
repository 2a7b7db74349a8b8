//! What holds of every tree that a traversal builds.

use crate::disk::{Disk, Location, LocationView};
use crate::error::IoError;
use crate::filter::{admitted, is_hidden};
use crate::flags::Display;
use crate::meta::tree::{
    descends, parent_location, renamed, spec_entries, spec_entry, spec_recurse_into,
    spec_synthetic, with_content, Gathered, SurveyView,
};
use crate::meta::{Meta, MetaView};
use vstd::prelude::*;

verus! {

/// The children that a survey gives a node: those it built, and none where
/// building them failed.
pub open spec fn content_or_none(survey: SurveyView) -> Option<Seq<MetaView>> {
    match survey.content {
        Ok(content) => content,
        Err(_) => None,
    }
}

/// Whether `child` is the node of the entry at `location`, let in under the
/// mode and the exclusions, made from what the snapshot holds of it, with
/// the children built for it with `below` levels left.
pub open spec fn made_from(
    child: MetaView,
    location: LocationView,
    below: nat,
    display: Display,
    excluded: Set<Seq<char>>,
    disk: Disk,
) -> bool {
    &&& location.file_name is Some
    &&& admitted(location.file_name->0, display, excluded)
    &&& disk.probes.contains_key(location.path)
    &&& Meta::spec_from_path(location, disk.probes[location.path]) matches Ok(made)
    &&& child == with_content(
        made,
        content_or_none(spec_recurse_into(made, below, display, excluded, disk)),
    )
}

/// Whether `child` is the node of one of the entries.
pub open spec fn from_listing(
    child: MetaView,
    entries: Seq<Result<Location, IoError>>,
    below: nat,
    display: Display,
    excluded: Set<Seq<char>>,
    disk: Disk,
) -> bool {
    exists|i: int|
        0 <= i < entries.len() && (#[trigger] entries[i]) is Ok && made_from(
            child,
            entries[i]->Ok_0@,
            below,
            display,
            excluded,
            disk,
        )
}

/// How many children head the listing of `node` before its own entries.
pub open spec fn heading_len(node: MetaView, display: Display, disk: Disk) -> nat {
    match spec_synthetic(node, display, disk).content {
        Ok(first) => first.len(),
        Err(_) => 0,
    }
}

/// Working through entries keeps what was gathered before them and adds
/// only nodes of entries.
pub proof fn lemma_entries_add_entry_nodes(
    entries: Seq<Result<Location, IoError>>,
    i: int,
    below: nat,
    display: Display,
    excluded: Set<Seq<char>>,
    disk: Disk,
    acc: Gathered,
)
    requires
        0 <= i <= entries.len(),
    ensures
        spec_entries(entries, i, below, display, excluded, disk, acc).content matches Ok(c) ==> {
            &&& c matches Some(children)
            &&& children.len() >= acc.content.len()
            &&& forall|j: int| 0 <= j < acc.content.len() ==> children[j] == acc.content[j]
            &&& forall|j: int|
                acc.content.len() <= j < children.len() ==> from_listing(
                    #[trigger] children[j],
                    entries,
                    below,
                    display,
                    excluded,
                    disk,
                )
        },
    decreases entries.len() - i,
{
    if i < entries.len() {
        match entries[i] {
            Err(_) => {},
            Ok(location) => match location@.file_name {
                None => {},
                Some(name) => {
                    let next = spec_entry(location@, name, below, display, excluded, disk, acc);
                    lemma_entries_add_entry_nodes(
                        entries,
                        i + 1,
                        below,
                        display,
                        excluded,
                        disk,
                        next,
                    );
                    let r = spec_entries(entries, i, below, display, excluded, disk, acc);
                    if r.content is Ok {
                        let children = r.content->Ok_0->0;
                        assert forall|j: int|
                            acc.content.len() <= j < children.len() implies from_listing(
                            #[trigger] children[j],
                            entries,
                            below,
                            display,
                            excluded,
                            disk,
                        ) by {
                            if j < next.content.len() {
                                assert(children[j] == next.content[j]);
                                assert(entries[i] is Ok);
                                assert(made_from(
                                    children[j],
                                    entries[i]->Ok_0@,
                                    below,
                                    display,
                                    excluded,
                                    disk,
                                ));
                            }
                        }
                    }
                },
            },
        }
    }
}

/// With no level left nothing is traversed: the children are absent, and
/// nothing is reported or missing.
pub proof fn law_no_level_no_children(
    node: MetaView,
    display: Display,
    excluded: Set<Seq<char>>,
    disk: Disk,
)
    ensures
        spec_recurse_into(node, 0, display, excluded, disk) == SurveyView::untraversed(),
{
}

/// The children of a node are the heading entries followed by nodes of the
/// directory's entries: each of these is made from an entry of the listing
/// that the mode and the exclusions let in, and its own children are those
/// built for it with one level less, or none where building them failed.
pub proof fn law_children_built_one_level_down(
    node: MetaView,
    depth: nat,
    display: Display,
    excluded: Set<Seq<char>>,
    disk: Disk,
)
    ensures
        spec_recurse_into(node, depth, display, excluded, disk).content matches Ok(Some(children))
            ==> {
            &&& descends(node, depth, display)
            &&& disk.listings.contains_key(node.path)
            &&& disk.listings[node.path] matches Ok(entries)
            &&& spec_synthetic(node, display, disk).content matches Ok(first)
            &&& children.len() >= first.len()
            &&& forall|j: int| 0 <= j < first.len() ==> children[j] == first[j]
            &&& forall|j: int|
                first.len() <= j < children.len() ==> from_listing(
                    #[trigger] children[j],
                    entries@,
                    (depth - 1) as nat,
                    display,
                    excluded,
                    disk,
                )
            &&& forall|j: int|
                first.len() <= j < children.len() ==> (#[trigger] children[j]).content
                    == content_or_none(
                    spec_recurse_into(
                        with_content(children[j], None),
                        (depth - 1) as nat,
                        display,
                        excluded,
                        disk,
                    ),
                )
        },
{
    let survey = spec_recurse_into(node, depth, display, excluded, disk);
    if survey.content is Ok && survey.content->Ok_0 is Some {
        let children = survey.content->Ok_0->0;
        let entries = disk.listings[node.path]->Ok_0;
        let head = spec_synthetic(node, display, disk);
        let first = head.content->Ok_0;
        let below = (depth - 1) as nat;
        lemma_entries_add_entry_nodes(
            entries@,
            0,
            below,
            display,
            excluded,
            disk,
            Gathered { content: first, reports: Seq::empty(), missing: head.missing },
        );
        assert forall|j: int| first.len() <= j < children.len() implies (
        #[trigger] children[j]).content == content_or_none(
            spec_recurse_into(with_content(children[j], None), below, display, excluded, disk),
        ) by {
            assert(from_listing(children[j], entries@, below, display, excluded, disk));
            let i = choose|i: int|
                0 <= i < entries@.len() && (#[trigger] entries@[i]) is Ok && made_from(
                    children[j],
                    entries@[i]->Ok_0@,
                    below,
                    display,
                    excluded,
                    disk,
                );
            let location = entries@[i]->Ok_0@;
            let made = Meta::spec_from_path(location, disk.probes[location.path])->Ok_0;
            assert(with_content(children[j], None) == made);
        }
    }
}

/// The children are absent exactly where nothing was enumerated: where the
/// traversal does not go into the node, or the directory could not be
/// opened, which is then the one thing reported. Where the directory was
/// opened the children are present, be they none, unless the listing failed
/// as a whole. This is stated of a snapshot that holds the listing of the
/// node.
pub proof fn law_children_absent_iff_not_enumerated(
    node: MetaView,
    depth: nat,
    display: Display,
    excluded: Set<Seq<char>>,
    disk: Disk,
)
    requires
        descends(node, depth, display) ==> disk.listings.contains_key(node.path),
    ensures
        ({
            let survey = spec_recurse_into(node, depth, display, excluded, disk);
            &&& survey.content == Ok::<Option<Seq<MetaView>>, crate::error::IoErrorView>(None) <==> (
            !descends(node, depth, display) || disk.listings[node.path] is Err)
            &&& descends(node, depth, display) && disk.listings[node.path] is Err ==> survey.reports
                == seq![
                crate::error::ReportView {
                    path: node.path,
                    error: disk.listings[node.path]->Err_0@,
                },
            ] && survey.missing.len() == 0
            &&& !descends(node, depth, display) ==> survey.reports.len() == 0
                && survey.missing.len() == 0
        }),
{
    if descends(node, depth, display) {
        match disk.listings[node.path] {
            Err(_) => {},
            Ok(entries) => {
                let head = spec_synthetic(node, display, disk);
                if head.content is Ok {
                    lemma_entries_add_entry_nodes(
                        entries@,
                        0,
                        (depth - 1) as nat,
                        display,
                        excluded,
                        disk,
                        Gathered {
                            content: head.content->Ok_0,
                            reports: Seq::empty(),
                            missing: head.missing,
                        },
                    );
                }
            },
        }
    }
}

/// No entry that the exclusion set matches is among the children, whatever
/// the display mode: behind the heading entries every child bears the name
/// of its entry, and the set does not match that name.
pub proof fn law_excluded_never_appear(
    node: MetaView,
    depth: nat,
    display: Display,
    excluded: Set<Seq<char>>,
    disk: Disk,
)
    ensures
        spec_recurse_into(node, depth, display, excluded, disk).content matches Ok(Some(children))
            ==> forall|j: int|
            heading_len(node, display, disk) <= j < children.len() ==> !excluded.contains(
                (#[trigger] children[j]).name.name,
            ),
{
    law_children_built_one_level_down(node, depth, display, excluded, disk);
}

/// Under a mode that hides dotfiles no child's name begins with a dot, and
/// there are no heading entries.
pub proof fn law_hidden_never_appear(
    node: MetaView,
    depth: nat,
    display: Display,
    excluded: Set<Seq<char>>,
    disk: Disk,
)
    requires
        display.spec_hides_dotfiles(),
    ensures
        heading_len(node, display, disk) == 0,
        spec_recurse_into(node, depth, display, excluded, disk).content matches Ok(Some(children))
            ==> forall|j: int|
            0 <= j < children.len() ==> !is_hidden((#[trigger] children[j]).name.name),
{
    law_children_built_one_level_down(node, depth, display, excluded, disk);
}

/// The heading entries are there under the mode that shows everything and
/// under no other: the children then begin with a copy of the node named
/// `.` and the node of its canonical parent named `..`, in that order, also
/// where the directory holds nothing. This is stated of a snapshot that
/// holds the parent and its probe.
pub proof fn law_synthetic_entries_first(
    node: MetaView,
    depth: nat,
    display: Display,
    excluded: Set<Seq<char>>,
    disk: Disk,
)
    requires
        spec_synthetic(node, display, disk).missing.len() == 0,
    ensures
        !display.spec_adds_synthetic() ==> heading_len(node, display, disk) == 0,
        display.spec_adds_synthetic() ==> (spec_recurse_into(
            node,
            depth,
            display,
            excluded,
            disk,
        ).content matches Ok(Some(children)) ==> {
            let location = parent_location(disk.parents[node.path]->Ok_0);
            &&& disk.parents.contains_key(node.path)
            &&& disk.parents[node.path] is Ok
            &&& disk.probes.contains_key(location.path)
            &&& Meta::spec_from_path(location, disk.probes[location.path]) matches Ok(parent)
            &&& children.len() >= 2
            &&& children[0] == renamed(node, "."@)
            &&& children[1] == renamed(parent, ".."@)
        }),
{
    law_children_built_one_level_down(node, depth, display, excluded, disk);
    let survey = spec_recurse_into(node, depth, display, excluded, disk);
    if display.spec_adds_synthetic() && survey.content is Ok && survey.content->Ok_0 is Some {
        let first = spec_synthetic(node, display, disk).content->Ok_0;
        assert(first.len() == 2);
    }
}

/// Working through entries never takes a missing observation off the list.
pub proof fn lemma_entries_missing_grows(
    entries: Seq<Result<Location, IoError>>,
    i: int,
    below: nat,
    display: Display,
    excluded: Set<Seq<char>>,
    disk: Disk,
    acc: Gathered,
)
    requires
        0 <= i <= entries.len(),
    ensures
        spec_entries(entries, i, below, display, excluded, disk, acc).missing.len()
            >= acc.missing.len(),
    decreases entries.len() - i,
{
    if i < entries.len() {
        match entries[i] {
            Err(_) => {},
            Ok(location) => match location@.file_name {
                None => {},
                Some(name) => {
                    let next = spec_entry(location@, name, below, display, excluded, disk, acc);
                    lemma_entries_missing_grows(
                        entries,
                        i + 1,
                        below,
                        display,
                        excluded,
                        disk,
                        next,
                    );
                },
            },
        }
    }
}

/// A survey that misses nothing is final: whatever more is observed, as long
/// as what was held stays as it was, the traversal gives the same children
/// and the same reports, and still misses nothing.
pub proof fn law_complete_survey_is_final(
    node: MetaView,
    depth: nat,
    display: Display,
    excluded: Set<Seq<char>>,
    disk: Disk,
    more: Disk,
)
    requires
        disk.within(more),
        spec_recurse_into(node, depth, display, excluded, disk).complete(),
    ensures
        spec_recurse_into(node, depth, display, excluded, more) == spec_recurse_into(
            node,
            depth,
            display,
            excluded,
            disk,
        ),
    decreases depth, 0int, 0int,
{
    if descends(node, depth, display) {
        match disk.listings[node.path] {
            Err(_) => {},
            Ok(entries) => {
                let head = spec_synthetic(node, display, disk);
                if head.content is Ok {
                    let start = Gathered {
                        content: head.content->Ok_0,
                        reports: Seq::empty(),
                        missing: head.missing,
                    };
                    lemma_entries_missing_grows(
                        entries@,
                        0,
                        (depth - 1) as nat,
                        display,
                        excluded,
                        disk,
                        start,
                    );
                    assert(spec_synthetic(node, display, more) == head);
                    lemma_complete_entries_are_final(
                        entries@,
                        0,
                        (depth - 1) as nat,
                        display,
                        excluded,
                        disk,
                        more,
                        start,
                    );
                }
            },
        }
    }
}

/// The same of the entries of a directory.
pub proof fn lemma_complete_entries_are_final(
    entries: Seq<Result<Location, IoError>>,
    i: int,
    below: nat,
    display: Display,
    excluded: Set<Seq<char>>,
    disk: Disk,
    more: Disk,
    acc: Gathered,
)
    requires
        0 <= i <= entries.len(),
        disk.within(more),
        spec_entries(entries, i, below, display, excluded, disk, acc).missing.len() == 0,
    ensures
        spec_entries(entries, i, below, display, excluded, more, acc) == spec_entries(
            entries,
            i,
            below,
            display,
            excluded,
            disk,
            acc,
        ),
    decreases below, 1int, entries.len() - i,
{
    if i < entries.len() {
        match entries[i] {
            Err(_) => {},
            Ok(location) => match location@.file_name {
                None => {},
                Some(name) => {
                    let next = spec_entry(location@, name, below, display, excluded, disk, acc);
                    lemma_entries_missing_grows(
                        entries,
                        i + 1,
                        below,
                        display,
                        excluded,
                        disk,
                        next,
                    );
                    if admitted(name, display, excluded) {
                        assert(disk.probes.contains_key(location@.path));
                        if Meta::spec_from_path(location@, disk.probes[location@.path]) is Ok {
                            let made = Meta::spec_from_path(
                                location@,
                                disk.probes[location@.path],
                            )->Ok_0;
                            law_complete_survey_is_final(
                                made,
                                below,
                                display,
                                excluded,
                                disk,
                                more,
                            );
                        }
                    }
                    assert(spec_entry(location@, name, below, display, excluded, more, acc)
                        == next);
                    lemma_complete_entries_are_final(
                        entries,
                        i + 1,
                        below,
                        display,
                        excluded,
                        disk,
                        more,
                        next,
                    );
                },
            },
        }
    }
}

/// What a survey lists as missing is missing indeed: the snapshot holds none
/// of it, so each observation asked for adds to the snapshot.
pub proof fn law_missing_is_not_held(
    node: MetaView,
    depth: nat,
    display: Display,
    excluded: Set<Seq<char>>,
    disk: Disk,
)
    ensures
        disk.lacks_all(spec_recurse_into(node, depth, display, excluded, disk).missing),
    decreases depth, 0int, 0int,
{
    if descends(node, depth, display) && disk.listings.contains_key(node.path) {
        match disk.listings[node.path] {
            Err(_) => {},
            Ok(entries) => {
                let head = spec_synthetic(node, display, disk);
                if head.content is Ok {
                    lemma_entries_missing_is_not_held(
                        entries@,
                        0,
                        (depth - 1) as nat,
                        display,
                        excluded,
                        disk,
                        Gathered {
                            content: head.content->Ok_0,
                            reports: Seq::empty(),
                            missing: head.missing,
                        },
                    );
                }
            },
        }
    }
}

/// The same of the entries of a directory.
pub proof fn lemma_entries_missing_is_not_held(
    entries: Seq<Result<Location, IoError>>,
    i: int,
    below: nat,
    display: Display,
    excluded: Set<Seq<char>>,
    disk: Disk,
    acc: Gathered,
)
    requires
        0 <= i <= entries.len(),
        disk.lacks_all(acc.missing),
    ensures
        disk.lacks_all(spec_entries(entries, i, below, display, excluded, disk, acc).missing),
    decreases below, 1int, entries.len() - i,
{
    if i < entries.len() {
        match entries[i] {
            Err(_) => {},
            Ok(location) => match location@.file_name {
                None => {},
                Some(name) => {
                    let next = spec_entry(location@, name, below, display, excluded, disk, acc);
                    if admitted(name, display, excluded) && disk.probes.contains_key(
                        location@.path,
                    ) && Meta::spec_from_path(location@, disk.probes[location@.path]) is Ok {
                        let made = Meta::spec_from_path(
                            location@,
                            disk.probes[location@.path],
                        )->Ok_0;
                        law_missing_is_not_held(made, below, display, excluded, disk);
                    }
                    lemma_entries_missing_is_not_held(
                        entries,
                        i + 1,
                        below,
                        display,
                        excluded,
                        disk,
                        next,
                    );
                },
            },
        }
    }
}

} // verus!
