//! The scan of the application data root: which of its entries name a
//! package, who owns it, and what is counted as found or as failed.

use crate::names::{as_map, has_name, insert_ordered, lemma_insert_ordered, named_at, names_distinct, PackageUidMap};
use crate::record::KSU_MAX_PACKAGE_NAME;
use vstd::prelude::*;
use vstd::utf8::{encode_utf8, is_ascii_chars, is_ascii_chars_encode_utf8};

verus! {

/// What was learned of one child of the data root.
#[derive(Debug)]
pub enum ScanEntry {
    /// The child could not be read at all.
    Unreadable,
    /// The child was read.
    Found {
        /// Whether it is a directory.
        is_dir: bool,
        /// Its name, unless the name is no valid text.
        name: Option<String>,
        /// The user ID that owns it, unless its metadata could not be read.
        owner: Option<u32>,
    },
}

/// What was learned of the data root itself.
#[derive(Debug)]
pub enum RootListing {
    /// The root does not exist.
    Missing,
    /// The root exists and could not be listed.
    Unreadable,
    /// The children of the root, in the order in which they were listed.
    Entries(Vec<ScanEntry>),
}

/// Why a scan gave no mapping.
#[derive(Clone, Copy, Debug, PartialEq, Eq, Structural)]
pub enum ScanError {
    /// The data root does not exist.
    RootMissing,
    /// The data root could not be listed.
    RootUnreadable,
}

/// What a scan makes of one entry.
#[derive(Clone, Copy, Debug, PartialEq, Eq, Structural)]
pub enum EntryVerdict {
    /// Passed over in silence.
    Skipped,
    /// Passed over and counted as an error.
    Failed,
    /// Taken into the mapping.
    Accepted,
}

/// The outcome of a scan: the mapping, the number of entries taken into it
/// and the number of entries counted as errors.
#[derive(Debug)]
pub struct ScanReport {
    pub map: PackageUidMap,
    pub found: usize,
    pub errors: usize,
}

/// The names of the two directory artifacts that never stand for a package.
pub open spec fn is_dot_name(name: Seq<char>) -> bool {
    name == seq!['.'] || name == seq!['.', '.']
}

/// What a scan makes of `entry`. Anything but a directory is skipped, and so
/// are the two dot names; an unreadable entry, a name that is no text, a name
/// of `KSU_MAX_PACKAGE_NAME` bytes or more and unreadable metadata are
/// failures; every other directory is accepted.
pub open spec fn verdict(entry: ScanEntry) -> EntryVerdict {
    match entry {
        ScanEntry::Unreadable => EntryVerdict::Failed,
        ScanEntry::Found { is_dir, name, owner } => {
            if !is_dir {
                EntryVerdict::Skipped
            } else if name is None {
                EntryVerdict::Failed
            } else if is_dot_name(name->0@) {
                EntryVerdict::Skipped
            } else if encode_utf8(name->0@).len() >= KSU_MAX_PACKAGE_NAME {
                EntryVerdict::Failed
            } else if owner is None {
                EntryVerdict::Failed
            } else {
                EntryVerdict::Accepted
            }
        },
    }
}

/// The pair that an accepted entry adds to the mapping.
pub open spec fn accepted_pair(entry: ScanEntry) -> (Seq<char>, u32)
    recommends
        verdict(entry) == EntryVerdict::Accepted,
{
    (entry->name->0@, entry->owner->0)
}

/// The pairs that a scan of `entries` holds, in order: each accepted entry
/// in turn gives its name its owner.
pub open spec fn scan_order(entries: Seq<ScanEntry>) -> Seq<(Seq<char>, u32)>
    decreases entries.len(),
{
    if entries.len() == 0 {
        Seq::empty()
    } else {
        let before = scan_order(entries.drop_last());
        if verdict(entries.last()) == EntryVerdict::Accepted {
            insert_ordered(before, accepted_pair(entries.last()).0, accepted_pair(entries.last()).1)
        } else {
            before
        }
    }
}

/// The number of entries among `entries` of which a scan makes `which`.
pub open spec fn count_verdict(entries: Seq<ScanEntry>, which: EntryVerdict) -> nat
    decreases entries.len(),
{
    if entries.len() == 0 {
        0
    } else {
        count_verdict(entries.drop_last(), which) + if verdict(entries.last()) == which {
            1nat
        } else {
            0nat
        }
    }
}

/// No more entries get a verdict than there are entries, and the pairs of a
/// scan never hold a name twice.
pub proof fn lemma_scan_bounds(entries: Seq<ScanEntry>, which: EntryVerdict)
    ensures
        count_verdict(entries, which) <= entries.len(),
        names_distinct(scan_order(entries)),
    decreases entries.len(),
{
    if entries.len() > 0 {
        lemma_scan_bounds(entries.drop_last(), which);
        if verdict(entries.last()) == EntryVerdict::Accepted {
            lemma_insert_ordered(
                scan_order(entries.drop_last()),
                accepted_pair(entries.last()).0,
                accepted_pair(entries.last()).1,
            );
        }
    }
}

/// Says what a scan makes of `entry`.
pub fn classify_entry(entry: &ScanEntry) -> (which: EntryVerdict)
    ensures
        which == verdict(*entry),
{
    match entry {
        ScanEntry::Unreadable => EntryVerdict::Failed,
        ScanEntry::Found { is_dir, name, owner } => {
            if !*is_dir {
                return EntryVerdict::Skipped;
            }
            match name {
                None => EntryVerdict::Failed,
                Some(text) => {
                    let one_dot = ".".to_owned();
                    let two_dots = "..".to_owned();
                    proof {
                        reveal_strlit(".");
                        reveal_strlit("..");
                        assert(one_dot@ =~= seq!['.']);
                        assert(two_dots@ =~= seq!['.', '.']);
                    }
                    if *text == one_dot || *text == two_dots {
                        EntryVerdict::Skipped
                    } else if text.as_str().as_bytes().len() >= KSU_MAX_PACKAGE_NAME {
                        EntryVerdict::Failed
                    } else if owner.is_none() {
                        EntryVerdict::Failed
                    } else {
                        EntryVerdict::Accepted
                    }
                },
            }
        },
    }
}

/// Scans the listed children of the data root in their order. Each accepted
/// entry gives its name its owner in the mapping and is counted as found;
/// each failed one is counted as an error; the scan goes on either way.
pub fn scan_entries(entries: &Vec<ScanEntry>) -> (report: ScanReport)
    ensures
        report.map.order() == scan_order(entries@),
        report.found == count_verdict(entries@, EntryVerdict::Accepted),
        report.errors == count_verdict(entries@, EntryVerdict::Failed),
{
    let mut map = PackageUidMap::new();
    let mut found: usize = 0;
    let mut errors: usize = 0;
    let mut i: usize = 0;
    while i < entries.len()
        invariant
            i <= entries@.len(),
            map.order() == scan_order(entries@.take(i as int)),
            found == count_verdict(entries@.take(i as int), EntryVerdict::Accepted),
            errors == count_verdict(entries@.take(i as int), EntryVerdict::Failed),
        decreases entries@.len() - i,
    {
        proof {
            assert(entries@.take(i + 1).drop_last() =~= entries@.take(i as int));
            lemma_scan_bounds(entries@.take(i as int), EntryVerdict::Accepted);
            lemma_scan_bounds(entries@.take(i as int), EntryVerdict::Failed);
        }
        match classify_entry(&entries[i]) {
            EntryVerdict::Skipped => {},
            EntryVerdict::Failed => {
                errors += 1;
            },
            EntryVerdict::Accepted => {
                match &entries[i] {
                    ScanEntry::Found { is_dir: _, name: Some(text), owner: Some(uid) } => {
                        map.insert(text.clone(), *uid);
                        found += 1;
                    },
                    _ => {},
                }
            },
        }
        i += 1;
    }
    proof {
        assert(entries@.take(i as int) =~= entries@);
    }
    ScanReport { map, found, errors }
}

/// Scans the data root as it was listed. Only a root that is missing or
/// cannot be listed fails the scan; nothing that is wrong with single entries
/// does.
pub fn scan_user_data_directory(root: &RootListing) -> (outcome: Result<ScanReport, ScanError>)
    ensures
        match *root {
            RootListing::Missing => outcome == Err::<ScanReport, ScanError>(ScanError::RootMissing),
            RootListing::Unreadable => outcome == Err::<ScanReport, ScanError>(
                ScanError::RootUnreadable,
            ),
            RootListing::Entries(listed) => outcome is Ok && outcome->Ok_0.map.order()
                == scan_order(listed@) && outcome->Ok_0.found == count_verdict(
                listed@,
                EntryVerdict::Accepted,
            ) && outcome->Ok_0.errors == count_verdict(listed@, EntryVerdict::Failed),
        },
{
    match root {
        RootListing::Missing => Err(ScanError::RootMissing),
        RootListing::Unreadable => Err(ScanError::RootUnreadable),
        RootListing::Entries(listed) => Ok(scan_entries(listed)),
    }
}

/// Entry `i` of `entries` is accepted and bears `name`.
pub open spec fn accepted_as(entries: Seq<ScanEntry>, name: Seq<char>, i: int) -> bool {
    0 <= i < entries.len() && verdict(entries[i]) == EntryVerdict::Accepted && accepted_pair(
        entries[i],
    ).0 == name
}

/// The mapping of a scan holds exactly the names of the accepted entries.
pub proof fn lemma_scan_names(entries: Seq<ScanEntry>, name: Seq<char>)
    ensures
        as_map(scan_order(entries)).contains_key(name) <==> exists|i: int|
            accepted_as(entries, name, i),
    decreases entries.len(),
{
    if entries.len() > 0 {
        let prefix = entries.drop_last();
        let last = entries.len() - 1;
        lemma_scan_names(prefix, name);
        lemma_scan_bounds(prefix, EntryVerdict::Accepted);
        if verdict(entries.last()) == EntryVerdict::Accepted {
            lemma_insert_ordered(
                scan_order(prefix),
                accepted_pair(entries.last()).0,
                accepted_pair(entries.last()).1,
            );
        }
        if as_map(scan_order(entries)).contains_key(name) {
            if as_map(scan_order(prefix)).contains_key(name) {
                let i = choose|i: int| accepted_as(prefix, name, i);
                assert(accepted_as(entries, name, i));
            } else {
                assert(accepted_as(entries, name, last));
            }
        }
        if exists|i: int| accepted_as(entries, name, i) {
            let i = choose|i: int| accepted_as(entries, name, i);
            if i < last {
                assert(accepted_as(prefix, name, i));
            }
        }
    } else {
        assert(!has_name(scan_order(entries), name)) by {
            assert forall|i: int| !named_at(scan_order(entries), name, i) by {}
        }
    }
}

/// A name that is borne only by entries that are no directories is not in
/// the mapping of the scan.
pub proof fn lemma_non_directories_excluded(entries: Seq<ScanEntry>, name: Seq<char>)
    requires
        forall|i: int|
            0 <= i < entries.len() && (#[trigger] entries[i]) is Found && entries[i]->name is Some
                && entries[i]->name->0@ == name ==> !entries[i]->is_dir,
    ensures
        !as_map(scan_order(entries)).contains_key(name),
{
    lemma_scan_names(entries, name);
    assert forall|i: int| !accepted_as(entries, name, i) by {
        if 0 <= i < entries.len() {
            assert(entries[i] is Found ==> verdict(entries[i]) != EntryVerdict::Accepted
                || entries[i]->name->0@ != name);
        }
    }
}

/// A dot name takes fewer bytes than the name field is wide.
pub proof fn lemma_dot_names_are_short(name: Seq<char>)
    requires
        is_dot_name(name),
    ensures
        encode_utf8(name).len() < KSU_MAX_PACKAGE_NAME,
{
    assert(is_ascii_chars(name));
    is_ascii_chars_encode_utf8(name);
}

/// Neither dot name is ever in the mapping of a scan.
pub proof fn lemma_dot_names_excluded(entries: Seq<ScanEntry>, name: Seq<char>)
    requires
        is_dot_name(name),
    ensures
        !as_map(scan_order(entries)).contains_key(name),
{
    lemma_scan_names(entries, name);
    assert forall|i: int| !accepted_as(entries, name, i) by {}
}

/// A name of `KSU_MAX_PACKAGE_NAME` bytes or more is never in the mapping of
/// a scan.
pub proof fn lemma_long_names_excluded(entries: Seq<ScanEntry>, name: Seq<char>)
    requires
        encode_utf8(name).len() >= KSU_MAX_PACKAGE_NAME,
    ensures
        !as_map(scan_order(entries)).contains_key(name),
{
    lemma_scan_names(entries, name);
    assert forall|i: int| !accepted_as(entries, name, i) by {}
}

/// A directory whose name has `KSU_MAX_PACKAGE_NAME` bytes or more fails:
/// scanning it after `entries` adds one to the errors and leaves the pairs
/// and the number found as they were.
pub proof fn lemma_long_name_is_an_error(entries: Seq<ScanEntry>, entry: ScanEntry)
    requires
        entry is Found,
        entry->is_dir,
        entry->name is Some,
        encode_utf8(entry->name->0@).len() >= KSU_MAX_PACKAGE_NAME,
    ensures
        verdict(entry) == EntryVerdict::Failed,
        scan_order(entries.push(entry)) == scan_order(entries),
        count_verdict(entries.push(entry), EntryVerdict::Failed) == count_verdict(
            entries,
            EntryVerdict::Failed,
        ) + 1,
        count_verdict(entries.push(entry), EntryVerdict::Accepted) == count_verdict(
            entries,
            EntryVerdict::Accepted,
        ),
{
    if is_dot_name(entry->name->0@) {
        lemma_dot_names_are_short(entry->name->0@);
    }
    assert(entries.push(entry).drop_last() =~= entries);
}

} // verus!
