//! The entries of an APK archive.
//!
//! An [`ApkExtractor`] is built from the names and contents of the entries
//! of the archive. It keeps the DEX files that lie at the top level of the
//! archive, in the order in which the runtime loads them: `classes.dex`,
//! `classes2.dex`, and so on by number, then any other DEX file by name.

use vstd::prelude::*;
use vstd::seq_lib::to_multiset_insert;
use crate::apk::error::{ApkError, ApkErrorView};
use crate::text::{
    chars_of, lemma_seq_le_total, lemma_seq_le_transitive, owned, parse_usize, parse_usize_spec, seq_ends_with, seq_le,
    seq_starts_with, str_contains_char, str_ends_with, str_eq, str_le, str_starts_with,
    string_of_range,
};

verus! {

/// Represents a single DEX file within an APK.
#[derive(Debug, Clone)]
pub struct DexEntry {
    pub name: String,
    pub index: usize,
    pub data: Vec<u8>,
}

/// The mathematical value of a [`DexEntry`].
pub ghost struct DexEntryView {
    pub name: Seq<char>,
    pub index: usize,
    pub data: Seq<u8>,
}

impl View for DexEntry {
    type V = DexEntryView;

    open spec fn view(&self) -> DexEntryView {
        DexEntryView { name: self.name@, index: self.index, data: self.data@ }
    }
}

/// The views of a sequence of DEX entries.
pub open spec fn dex_entry_views(entries: Seq<DexEntry>) -> Seq<DexEntryView> {
    entries.map_values(|e: DexEntry| e@)
}

/// The number of a DEX file: 1 for `classes.dex`, N for `classesN.dex`, none
/// for any other name.
pub open spec fn dex_number_spec(name: Seq<char>) -> Option<usize> {
    if name == "classes.dex"@ {
        Some(1)
    } else if seq_starts_with(name, "classes"@) && seq_ends_with(name, ".dex"@) && name.len() >= 11 {
        parse_usize_spec(name.subrange(7, name.len() - 4))
    } else {
        None
    }
}

/// `a` is loaded no later than `b`: numbered files come first, by number;
/// the others follow, by name.
pub open spec fn loads_before(a: DexEntryView, b: DexEntryView) -> bool {
    match (dex_number_spec(a.name), dex_number_spec(b.name)) {
        (Some(x), Some(y)) => x <= y,
        (Some(_), None) => true,
        (None, Some(_)) => false,
        (None, None) => seq_le(a.name, b.name),
    }
}

/// Each entry is loaded no later than the entry after it.
pub open spec fn in_load_order(entries: Seq<DexEntryView>) -> bool {
    forall|i: int|
        0 <= i < entries.len() - 1 ==> loads_before(#[trigger] entries[i], entries[i + 1])
}

/// Of two entries, one is loaded no later than the other.
pub proof fn lemma_loads_before_total(a: DexEntryView, b: DexEntryView)
    ensures
        loads_before(a, b) || loads_before(b, a),
{
    lemma_seq_le_total(a.name, b.name);
}

/// The load order is transitive.
pub proof fn lemma_loads_before_transitive(a: DexEntryView, b: DexEntryView, c: DexEntryView)
    requires
        loads_before(a, b),
        loads_before(b, c),
    ensures
        loads_before(a, c),
{
    if dex_number_spec(a.name) is None && dex_number_spec(b.name) is None && dex_number_spec(
        c.name,
    ) is None {
        lemma_seq_le_transitive(a.name, b.name, c.name);
    }
}

/// Entries in load order are sorted: each entry is loaded no later than
/// every entry after it.
pub proof fn lemma_load_order_sorted(entries: Seq<DexEntryView>, i: int, j: int)
    requires
        in_load_order(entries),
        0 <= i < j < entries.len(),
    ensures
        loads_before(entries[i], entries[j]),
    decreases j - i,
{
    if i + 1 < j {
        lemma_load_order_sorted(entries, i, j - 1);
        assert(loads_before(entries[j - 1], entries[j]));
        lemma_loads_before_transitive(entries[i], entries[j - 1], entries[j]);
    } else {
        assert(loads_before(entries[i], entries[i + 1]));
    }
}

impl DexEntry {
    /// Create a new DexEntry.
    pub fn new(name: String, index: usize, data: Vec<u8>) -> (entry: DexEntry)
        ensures
            entry.name == name,
            entry.index == index,
            entry.data == data,
    {
        DexEntry { name, index, data }
    }

    /// Check if this is the primary DEX file (classes.dex).
    pub fn is_primary(&self) -> (yes: bool)
        ensures
            yes == (self.name@ == "classes.dex"@),
    {
        str_eq(self.name.as_str(), "classes.dex")
    }

    /// Get the DEX file number (e.g., 2 for classes2.dex).
    pub fn dex_number(&self) -> (number: Option<usize>)
        ensures
            number == dex_number_spec(self.name@),
    {
        let name = self.name.as_str();
        if str_eq(name, "classes.dex") {
            return Some(1);
        }
        if str_starts_with(name, "classes") && str_ends_with(name, ".dex") {
            let chars = chars_of(name);
            let len = chars.len();
            if len < 11 {
                return None;
            }
            let digits = string_of_range(&chars, 7, len - 4);
            parse_usize(digits.as_str())
        } else {
            None
        }
    }

    /// Whether this entry is loaded no later than `other`.
    pub fn loads_before(&self, other: &DexEntry) -> (yes: bool)
        ensures
            yes == loads_before(self@, other@),
    {
        match (self.dex_number(), other.dex_number()) {
            (Some(x), Some(y)) => x <= y,
            (Some(_), None) => true,
            (None, Some(_)) => false,
            (None, None) => str_le(self.name.as_str(), other.name.as_str()),
        }
    }
}

/// One entry of an archive: its name and its content.
#[derive(Debug, Clone)]
pub struct ArchiveEntry {
    pub name: String,
    pub data: Vec<u8>,
}

/// The mathematical value of an [`ArchiveEntry`].
pub ghost struct ArchiveEntryView {
    pub name: Seq<char>,
    pub data: Seq<u8>,
}

impl View for ArchiveEntry {
    type V = ArchiveEntryView;

    open spec fn view(&self) -> ArchiveEntryView {
        ArchiveEntryView { name: self.name@, data: self.data@ }
    }
}

/// The views of a sequence of archive entries.
pub open spec fn archive_views(entries: Seq<ArchiveEntry>) -> Seq<ArchiveEntryView> {
    entries.map_values(|e: ArchiveEntry| e@)
}

/// A DEX file at the top level of the archive: the name ends in `.dex` and
/// holds no `/`.
pub open spec fn is_dex_name(name: Seq<char>) -> bool {
    seq_ends_with(name, ".dex"@) && !name.contains('/')
}

/// Some entry of the archive has the name `name`.
pub open spec fn has_entry(entries: Seq<ArchiveEntryView>, name: Seq<char>) -> bool {
    exists|i: int| 0 <= i < entries.len() && (#[trigger] entries[i]).name == name
}

/// The DEX files among the first `n` entries of the archive, each with its
/// position in the archive, in archive order.
pub open spec fn dex_files(entries: Seq<ArchiveEntryView>, n: nat) -> Seq<DexEntryView>
    decreases n,
{
    if n == 0 || n > entries.len() {
        Seq::empty()
    } else {
        let before = dex_files(entries, (n - 1) as nat);
        if is_dex_name(entries[n - 1].name) {
            before.push(
                DexEntryView {
                    name: entries[n - 1].name,
                    index: (n - 1) as usize,
                    data: entries[n - 1].data,
                },
            )
        } else {
            before
        }
    }
}

/// Why an archive is no APK, if it is none: it has no manifest, or no DEX
/// file.
pub open spec fn apk_fault(entries: Seq<ArchiveEntryView>) -> Option<ApkErrorView> {
    if !has_entry(entries, "AndroidManifest.xml"@) {
        Some(ApkErrorView::InvalidApk("No AndroidManifest.xml found"@))
    } else if dex_files(entries, entries.len()).len() == 0 {
        Some(ApkErrorView::InvalidApk("No DEX files found"@))
    } else {
        None
    }
}

/// APK file extractor for DEX files and resources.
pub struct ApkExtractor {
    apk_path: String,
    dex_entries: Vec<DexEntry>,
    has_manifest: bool,
    has_resources: bool,
}

/// The mathematical value of an [`ApkExtractor`].
pub ghost struct ApkExtractorView {
    pub apk_path: Seq<char>,
    pub dex_entries: Seq<DexEntryView>,
    pub has_manifest: bool,
    pub has_resources: bool,
}

impl View for ApkExtractor {
    type V = ApkExtractorView;

    closed spec fn view(&self) -> ApkExtractorView {
        ApkExtractorView {
            apk_path: self.apk_path@,
            dex_entries: dex_entry_views(self.dex_entries@),
            has_manifest: self.has_manifest,
            has_resources: self.has_resources,
        }
    }
}

/// Whether an entry of this name is a DEX file at the top level.
pub fn is_dex_entry_name(name: &str) -> (yes: bool)
    ensures
        yes == is_dex_name(name@),
{
    str_ends_with(name, ".dex") && !str_contains_char(name, '/')
}

fn has_entry_named(entries: &Vec<ArchiveEntry>, name: &str) -> (found: bool)
    ensures
        found == has_entry(archive_views(entries@), name@),
{
    let ghost all = archive_views(entries@);
    let mut i: usize = 0;
    while i < entries.len()
        invariant
            i <= entries@.len(),
            all == archive_views(entries@),
            forall|j: int| 0 <= j < i ==> (#[trigger] all[j]).name != name@,
        decreases entries@.len() - i,
    {
        assert(all[i as int] == entries@[i as int]@);
        if str_eq(entries[i].name.as_str(), name) {
            return true;
        }
        i += 1;
    }
    false
}

/// Puts `entry` into `sorted` before the first entry that must be loaded
/// after it.
fn insert_in_order(sorted: &mut Vec<DexEntry>, entry: DexEntry)
    requires
        in_load_order(dex_entry_views(old(sorted)@)),
    ensures
        in_load_order(dex_entry_views(final(sorted)@)),
        dex_entry_views(final(sorted)@).to_multiset() == dex_entry_views(
            old(sorted)@,
        ).to_multiset().insert(entry@),
{
    let ghost before = dex_entry_views(sorted@);
    let mut p: usize = 0;
    while p < sorted.len() && sorted[p].loads_before(&entry)
        invariant
            p <= sorted@.len(),
            *sorted == *old(sorted),
            before == dex_entry_views(sorted@),
            forall|q: int| 0 <= q < p ==> loads_before(#[trigger] before[q], entry@),
        decreases sorted@.len() - p,
    {
        assert(before[p as int] == sorted@[p as int]@);
        p += 1;
    }
    proof {
        if p < sorted@.len() {
            assert(before[p as int] == sorted@[p as int]@);
            lemma_loads_before_total(before[p as int], entry@);
        }
        to_multiset_insert(before, p as int, entry@);
    }
    let ghost value = entry@;
    sorted.insert(p, entry);
    proof {
        let after = dex_entry_views(sorted@);
        assert(after =~= before.insert(p as int, value));
        assert forall|i: int| 0 <= i < after.len() - 1 implies loads_before(
            #[trigger] after[i],
            after[i + 1],
        ) by {
            if i + 1 < p {
                assert(after[i] == before[i] && after[i + 1] == before[i + 1]);
            } else if i + 1 == p {
                assert(after[i] == before[i]);
            } else if i == p {
                assert(after[i + 1] == before[i]);
            } else {
                assert(after[i] == before[i - 1] && after[i + 1] == before[i]);
            }
        }
    }
}

impl ApkExtractor {
    /// Scans the entries of an archive for DEX files, the manifest and the
    /// resource table.
    ///
    /// Fails if the archive has no `AndroidManifest.xml` or no DEX file at
    /// its top level. The DEX files are kept in load order.
    pub fn new(apk_path: String, entries: Vec<ArchiveEntry>) -> (r: Result<ApkExtractor, ApkError>)
        ensures
            match r {
                Ok(extractor) => {
                    &&& apk_fault(archive_views(entries@)) is None
                    &&& extractor@.apk_path == apk_path@
                    &&& extractor@.has_manifest
                    &&& extractor@.has_resources == has_entry(
                        archive_views(entries@),
                        "resources.arsc"@,
                    )
                    &&& extractor@.dex_entries.to_multiset() == dex_files(
                        archive_views(entries@),
                        entries@.len(),
                    ).to_multiset()
                    &&& in_load_order(extractor@.dex_entries)
                },
                Err(e) => apk_fault(archive_views(entries@)) == Some(e@),
            },
    {
        let ghost all = archive_views(entries@);
        let has_manifest = has_entry_named(&entries, "AndroidManifest.xml");
        let has_resources = has_entry_named(&entries, "resources.arsc");
        let mut dex_entries: Vec<DexEntry> = Vec::new();
        let mut entries = entries;
        let total = entries.len();
        let mut i: usize = 0;
        assert(dex_entry_views(dex_entries@) =~= Seq::<DexEntryView>::empty());
        while i < total
            invariant
                i <= total == entries@.len(),
                all.len() == total,
                forall|j: int| i <= j < total ==> (#[trigger] entries@[j])@ == all[j],
                in_load_order(dex_entry_views(dex_entries@)),
                dex_entry_views(dex_entries@).to_multiset() == dex_files(all, i as nat).to_multiset(),
            decreases total - i,
        {
            assert(entries@[i as int]@ == all[i as int]);
            if is_dex_entry_name(entries[i].name.as_str()) {
                let name = entries[i].name.clone();
                let mut data: Vec<u8> = Vec::new();
                let ghost content = entries@[i as int].data@;
                let ghost rest = entries@;
                data.append(&mut entries[i].data);
                assert(data@ =~= content);
                assert forall|j: int| i < j < total implies (#[trigger] entries@[j])@ == all[j] by {
                    assert(entries@[j] == rest[j]);
                }
                let entry = DexEntry::new(name, i, data);
                proof {
                    let done = dex_files(all, i as nat);
                    vstd::seq_lib::to_multiset_build(done, entry@);
                }
                insert_in_order(&mut dex_entries, entry);
            }
            i += 1;
        }
        proof {
            let found = dex_entry_views(dex_entries@);
            found.to_multiset_ensures();
            dex_files(all, total as nat).to_multiset_ensures();
        }
        if !has_manifest {
            return Err(ApkError::InvalidApk(owned("No AndroidManifest.xml found")));
        }
        if dex_entries.len() == 0 {
            return Err(ApkError::InvalidApk(owned("No DEX files found")));
        }
        Ok(ApkExtractor { apk_path, dex_entries, has_manifest, has_resources })
    }

    /// Get all DEX entries.
    pub fn dex_entries(&self) -> (entries: &[DexEntry])
        ensures
            dex_entry_views(entries@) == self@.dex_entries,
    {
        self.dex_entries.as_slice()
    }

    /// Get number of DEX files.
    pub fn dex_count(&self) -> (count: usize)
        ensures
            count == self@.dex_entries.len(),
    {
        self.dex_entries.len()
    }

    /// Check if AndroidManifest.xml exists.
    pub fn has_manifest(&self) -> (yes: bool)
        ensures
            yes == self@.has_manifest,
    {
        self.has_manifest
    }

    /// Check if resources.arsc exists.
    pub fn has_resources(&self) -> (yes: bool)
        ensures
            yes == self@.has_resources,
    {
        self.has_resources
    }

    /// Get APK file path.
    pub fn apk_path(&self) -> (path: &str)
        ensures
            path@ == self@.apk_path,
    {
        self.apk_path.as_str()
    }

    /// Get primary DEX file (classes.dex): the first entry of that name.
    pub fn primary_dex(&self) -> (entry: Option<&DexEntry>)
        ensures
            match entry {
                Some(e) => e@.name == "classes.dex"@ && exists|i: int|
                    0 <= i < self@.dex_entries.len() && self@.dex_entries[i] == e@ && forall|j: int|
                        0 <= j < i ==> (#[trigger] self@.dex_entries[j]).name != "classes.dex"@,
                None => forall|i: int|
                    0 <= i < self@.dex_entries.len() ==> (#[trigger] self@.dex_entries[i]).name
                        != "classes.dex"@,
            },
    {
        let mut i: usize = 0;
        while i < self.dex_entries.len()
            invariant
                i <= self.dex_entries@.len(),
                forall|j: int|
                    0 <= j < i ==> (#[trigger] self@.dex_entries[j]).name != "classes.dex"@,
            decreases self.dex_entries@.len() - i,
        {
            assert(self@.dex_entries[i as int] == self.dex_entries@[i as int]@);
            if self.dex_entries[i].is_primary() {
                return Some(&self.dex_entries[i]);
            }
            i += 1;
        }
        None
    }
}

/// Extract APK information: the number of DEX files, whether there is a
/// manifest and a resource table, and the names of the DEX files in load
/// order.
pub fn extract_apk_info(extractor: &ApkExtractor) -> (info: (usize, bool, bool, Vec<String>))
    ensures
        info.0 == extractor@.dex_entries.len(),
        info.1 == extractor@.has_manifest,
        info.2 == extractor@.has_resources,
        info.3@.map_values(|s: String| s@) == extractor@.dex_entries.map_values(
            |e: DexEntryView| e.name,
        ),
{
    let entries = extractor.dex_entries();
    let mut dex_files: Vec<String> = Vec::new();
    let mut k: usize = 0;
    while k < entries.len()
        invariant
            k <= entries@.len(),
            dex_files@.len() == k,
            forall|j: int| 0 <= j < k ==> (#[trigger] dex_files@[j])@ == entries@[j]@.name,
        decreases entries@.len() - k,
    {
        dex_files.push(entries[k].name.clone());
        k += 1;
    }
    assert(dex_files@.map_values(|s: String| s@) =~= dex_entry_views(entries@).map_values(
        |e: DexEntryView| e.name,
    ));
    (extractor.dex_count(), extractor.has_manifest(), extractor.has_resources(), dex_files)
}

} // verus!
