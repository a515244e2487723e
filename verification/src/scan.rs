//! The scan engine: targets, the walk over a library, the write policy for
//! files that were seen, and the missing pass.

use crate::config::WorkerConfig;
use crate::db::{
    file_views, find_flagged, first_flagged, FileRow, FileRowView, JobRecord, LibraryRootRow,
};
use crate::hash::{metadata_to_row, mtime_nanos, MetadataError};
use crate::io_budget::clamp_instant;
use crate::path_safety::{
    canonical_form, join_components, join_under, joined_path, library_name_fault,
    normalize_library_name, path_has_prefix, path_items, path_items_of, path_starts_with,
    posix_form_fault, to_posix_relative_path, PathError,
};
use crate::payload::{
    as_items, as_text, extract_optional_u64, is_null, json_is_null, json_items, json_member,
    json_text, member, payload_u64,
};
use crate::text::{
    decimal_text, join_strings, join_texts, push_decimal, text_equal, text_view, texts, trimmed,
};
use crate::thumbnail_queue::{bump, bumped};
use vstd::prelude::*;
use vstd::string::StringExecFns;

verus! {

/// Most error samples that a scan keeps.
pub const MAX_ERROR_SAMPLES: usize = 20;

/// Why a scan job cannot run or did not succeed.
#[derive(Debug)]
pub enum ScanError {
    /// `library_names` in the payload is neither missing, null nor an array.
    LibraryNamesNotArray,
    /// `library_names` in the payload holds something that is no string.
    LibraryNameNotString,
    /// A library name or a path was refused.
    Path(PathError),
    /// The metadata of a file cannot be stored.
    Metadata(MetadataError),
    /// A library root is no directory.
    RootNotDirectory,
    /// The walk met file system errors; the text lists them.
    AccessErrors(String),
}

/// The tallies of one scan.
#[derive(Debug)]
pub struct ScanCounters {
    pub files_seen: i64,
    pub directories_seen: i64,
    pub bytes_seen: i64,
    pub batch_writes: i64,
    pub missing_marked: i64,
    pub error_count: i64,
    pub error_samples: Vec<String>,
}

/// [`ScanCounters`] as plain values.
pub struct ScanCountersView {
    pub files_seen: i64,
    pub directories_seen: i64,
    pub bytes_seen: i64,
    pub batch_writes: i64,
    pub missing_marked: i64,
    pub error_count: i64,
    pub error_samples: Seq<Seq<char>>,
}

impl View for ScanCounters {
    type V = ScanCountersView;

    open spec fn view(&self) -> ScanCountersView {
        ScanCountersView {
            files_seen: self.files_seen,
            directories_seen: self.directories_seen,
            bytes_seen: self.bytes_seen,
            batch_writes: self.batch_writes,
            missing_marked: self.missing_marked,
            error_count: self.error_count,
            error_samples: texts(self.error_samples@),
        }
    }
}

/// The sum of two tallies, cut to what a tally can hold.
pub open spec fn tally_sum(a: i64, b: i64) -> i64 {
    clamp_instant(a + b) as i64
}

/// The sum of two tallies, cut to what a tally can hold.
pub fn add_tallies(a: i64, b: i64) -> (sum: i64)
    ensures
        sum == tally_sum(a, b),
{
    match a.checked_add(b) {
        Some(sum) => sum,
        None => if b > 0 {
            i64::MAX
        } else {
            i64::MIN
        },
    }
}

/// The sample that is kept of an error at a path.
pub open spec fn error_sample(path: Seq<char>, message: Seq<char>) -> Seq<char> {
    path + ": "@ + message
}

/// The samples after one more error: the new sample is kept while fewer
/// than twenty are.
pub open spec fn with_sample(samples: Seq<Seq<char>>, sample: Seq<char>) -> Seq<Seq<char>> {
    if samples.len() >= MAX_ERROR_SAMPLES {
        samples
    } else {
        samples.push(sample)
    }
}

/// The samples after those of another tally were added, one by one, up to
/// twenty in all.
pub open spec fn with_samples(samples: Seq<Seq<char>>, more: Seq<Seq<char>>) -> Seq<Seq<char>>
    decreases more.len(),
{
    if more.len() == 0 {
        samples
    } else {
        with_sample(with_samples(samples, more.drop_last()), more.last())
    }
}

/// Keeps a sample of an error at `path`, unless twenty are kept already.
pub fn push_error_sample(samples: &mut Vec<String>, path: &str, message: &str)
    ensures
        texts(final(samples)@) == with_sample(texts(old(samples)@), error_sample(path@, message@)),
{
    if samples.len() >= MAX_ERROR_SAMPLES {
        return ;
    }
    let mut sample = String::from_str(path);
    sample.append(": ");
    sample.append(message);
    let ghost kept = samples@;
    samples.push(sample);
    assert(texts(samples@) =~= texts(kept).push(sample@));
}

/// The message of a scan that met errors: how many, and the samples joined
/// by ` | ` where there are any.
pub open spec fn scan_error_message(error_count: i64, samples: Seq<Seq<char>>) -> Seq<char> {
    let head = "Scan encountered "@ + decimal_text(error_count as int)
        + " filesystem access errors"@;
    if samples.len() == 0 {
        head
    } else {
        head + ": "@ + join_texts(samples, " | "@)
    }
}

/// The message of a scan that met errors.
pub fn format_error_message(error_count: i64, samples: &Vec<String>) -> (message: String)
    ensures
        message@ == scan_error_message(error_count, texts(samples@)),
{
    let mut message = String::from_str("Scan encountered ");
    push_decimal(&mut message, error_count);
    message.append(" filesystem access errors");
    if samples.len() == 0 {
        assert(texts(samples@).len() == 0);
        return message;
    }
    message.append(": ");
    let joined = join_strings(samples, " | ");
    message.append(joined.as_str());
    assert(texts(samples@).len() == samples@.len());
    message
}

impl ScanCountersView {
    /// The tallies after those of one library were added: the counts are
    /// summed and the samples kept up to twenty in all. What the library
    /// marked missing is not part of its tallies.
    pub open spec fn absorbed(self, library: ScanCountersView) -> ScanCountersView {
        ScanCountersView {
            files_seen: tally_sum(self.files_seen, library.files_seen),
            directories_seen: tally_sum(self.directories_seen, library.directories_seen),
            bytes_seen: tally_sum(self.bytes_seen, library.bytes_seen),
            batch_writes: tally_sum(self.batch_writes, library.batch_writes),
            missing_marked: self.missing_marked,
            error_count: tally_sum(self.error_count, library.error_count),
            error_samples: with_samples(self.error_samples, library.error_samples),
        }
    }

    /// The tallies after one more error at `path`.
    pub open spec fn with_error(self, path: Seq<char>, message: Seq<char>) -> ScanCountersView {
        ScanCountersView {
            error_count: bumped(self.error_count),
            error_samples: with_sample(self.error_samples, error_sample(path, message)),
            ..self
        }
    }
}

/// Tallies that count nothing.
pub open spec fn no_tallies() -> ScanCountersView {
    ScanCountersView {
        files_seen: 0,
        directories_seen: 0,
        bytes_seen: 0,
        batch_writes: 0,
        missing_marked: 0,
        error_count: 0,
        error_samples: Seq::<Seq<char>>::empty(),
    }
}

impl ScanCounters {
    /// Tallies that count nothing yet.
    pub fn new() -> (counters: ScanCounters)
        ensures
            counters@ == no_tallies(),
    {
        let counters = ScanCounters {
            files_seen: 0,
            directories_seen: 0,
            bytes_seen: 0,
            batch_writes: 0,
            missing_marked: 0,
            error_count: 0,
            error_samples: Vec::new(),
        };
        assert(texts(counters.error_samples@) =~= Seq::<Seq<char>>::empty());
        counters
    }

    /// Counts one more error at `path` and keeps a sample of it.
    pub fn record_error(&mut self, path: &str, message: &str)
        ensures
            final(self)@ == old(self)@.with_error(path@, message@),
    {
        self.error_count = bump(self.error_count);
        push_error_sample(&mut self.error_samples, path, message);
    }

    /// Adds the tallies of one library.
    pub fn absorb(&mut self, library: &ScanCounters)
        ensures
            final(self)@ == old(self)@.absorbed(library@),
    {
        self.files_seen = add_tallies(self.files_seen, library.files_seen);
        self.directories_seen = add_tallies(self.directories_seen, library.directories_seen);
        self.bytes_seen = add_tallies(self.bytes_seen, library.bytes_seen);
        self.batch_writes = add_tallies(self.batch_writes, library.batch_writes);
        self.error_count = add_tallies(self.error_count, library.error_count);
        let ghost more = texts(library.error_samples@);
        let ghost start = texts(self.error_samples@);
        let mut i: usize = 0;
        assert(more.take(0) =~= Seq::<Seq<char>>::empty());
        while i < library.error_samples.len()
            invariant
                i <= library.error_samples.len(),
                more == texts(library.error_samples@),
                texts(self.error_samples@) == with_samples(start, more.take(i as int)),
                self.files_seen == tally_sum(old(self).files_seen, library.files_seen),
                self.directories_seen == tally_sum(
                    old(self).directories_seen,
                    library.directories_seen,
                ),
                self.bytes_seen == tally_sum(old(self).bytes_seen, library.bytes_seen),
                self.batch_writes == tally_sum(old(self).batch_writes, library.batch_writes),
                self.error_count == tally_sum(old(self).error_count, library.error_count),
                self.missing_marked == old(self).missing_marked,
            decreases library.error_samples.len() - i,
        {
            proof {
                assert(more.take(i + 1).drop_last() =~= more.take(i as int));
                assert(more.take(i + 1).last() == more[i as int]);
            }
            if self.error_samples.len() < MAX_ERROR_SAMPLES {
                let sample = library.error_samples[i].clone();
                let ghost kept = self.error_samples@;
                self.error_samples.push(sample);
                assert(texts(self.error_samples@) =~= texts(kept).push(sample@));
            }
            i += 1;
        }
        assert(more.take(more.len() as int) =~= more);
    }
}

/// What a look at one entry of the libraries root told.
#[derive(Debug)]
pub struct RootEntry {
    pub name: String,
    pub is_dir: bool,
    pub is_symlink: bool,
}

/// The names of the entries that are library roots: directories that are
/// no symbolic links.
pub open spec fn discovered_names(entries: Seq<RootEntry>) -> Seq<Seq<char>>
    decreases entries.len(),
{
    if entries.len() == 0 {
        Seq::<Seq<char>>::empty()
    } else {
        let front = discovered_names(entries.drop_last());
        if entries.last().is_dir && !entries.last().is_symlink {
            front.push(entries.last().name@)
        } else {
            front
        }
    }
}

/// The library names found under the libraries root: the entries that are
/// directories and no symbolic links.
pub fn discover_library_names(entries: &Vec<RootEntry>) -> (names: Vec<String>)
    ensures
        texts(names@) == discovered_names(entries@),
{
    let mut names: Vec<String> = Vec::new();
    let mut i: usize = 0;
    proof {
        assert(entries@.take(0) =~= Seq::<RootEntry>::empty());
        assert(texts(names@) =~= Seq::<Seq<char>>::empty());
    }
    while i < entries.len()
        invariant
            i <= entries.len(),
            texts(names@) == discovered_names(entries@.take(i as int)),
        decreases entries.len() - i,
    {
        proof {
            assert(entries@.take(i + 1).drop_last() =~= entries@.take(i as int));
            assert(entries@.take(i + 1).last() == entries@[i as int]);
        }
        let entry = &entries[i];
        if entry.is_dir && !entry.is_symlink {
            let name = entry.name.clone();
            let ghost kept = names@;
            names.push(name);
            assert(texts(names@) =~= texts(kept).push(name@));
        }
        i += 1;
    }
    assert(entries@.take(entries@.len() as int) =~= entries@);
    names
}

/// The texts of the elements of a JSON array, where all of them are
/// strings.
pub open spec fn item_texts(items: Seq<serde_json::Value>) -> Option<Seq<Seq<char>>>
    decreases items.len(),
{
    if items.len() == 0 {
        Some(Seq::<Seq<char>>::empty())
    } else {
        match (item_texts(items.drop_last()), json_text(items.last())) {
            (Some(front), Some(text)) => Some(front.push(text)),
            _ => None,
        }
    }
}

/// What the payload says of the libraries to scan.
pub enum LibraryNames {
    /// Nothing: all libraries are scanned.
    Unset,
    /// These.
    Names(Seq<Seq<char>>),
    /// Something that is no array.
    NotArray,
    /// An array that holds something that is no string.
    NotStrings,
}

/// What the payload says of the libraries to scan.
pub open spec fn payload_library_names(payload: serde_json::Value) -> LibraryNames {
    match json_member(payload, "library_names"@) {
        None => LibraryNames::Unset,
        Some(value) => if json_is_null(value) {
            LibraryNames::Unset
        } else {
            match json_items(value) {
                None => LibraryNames::NotArray,
                Some(items) => match item_texts(items) {
                    Some(names) => LibraryNames::Names(names),
                    None => LibraryNames::NotStrings,
                },
            }
        },
    }
}

/// Reads the libraries that a scan is limited to: none where the payload
/// has no `library_names` or has `null` there, else the strings of the array
/// it has there. Anything else is refused.
pub fn extract_library_names(payload: &serde_json::Value) -> (result: Result<
    Option<Vec<String>>,
    ScanError,
>)
    ensures
        match payload_library_names(*payload) {
            LibraryNames::Unset => result matches Ok(None),
            LibraryNames::Names(names) => result matches Ok(Some(found)) && texts(found@) == names,
            LibraryNames::NotArray => result matches Err(ScanError::LibraryNamesNotArray),
            LibraryNames::NotStrings => result matches Err(ScanError::LibraryNameNotString),
        },
{
    let value = match member(payload, "library_names") {
        Some(value) => value,
        None => {
            return Ok(None);
        },
    };
    if is_null(value) {
        return Ok(None);
    }
    let items = match as_items(value) {
        Some(items) => items,
        None => {
            return Err(ScanError::LibraryNamesNotArray);
        },
    };
    let mut names: Vec<String> = Vec::new();
    let mut i: usize = 0;
    proof {
        assert(items@.take(0) =~= Seq::<serde_json::Value>::empty());
        assert(texts(names@) =~= Seq::<Seq<char>>::empty());
    }
    while i < items.len()
        invariant
            i <= items.len(),
            item_texts(items@.take(i as int)) == Some(texts(names@)),
            payload_library_names(*payload) == match item_texts(items@) {
                Some(all) => LibraryNames::Names(all),
                None => LibraryNames::NotStrings,
            },
        decreases items.len() - i,
    {
        proof {
            assert(items@.take(i + 1).drop_last() =~= items@.take(i as int));
            assert(items@.take(i + 1).last() == items@[i as int]);
        }
        match as_text(&items[i]) {
            Some(text) => {
                let name = String::from_str(text);
                let ghost kept = names@;
                names.push(name);
                assert(texts(names@) =~= texts(kept).push(name@));
            },
            None => {
                proof {
                    lemma_item_texts_fail(items@, i as int);
                }
                return Err(ScanError::LibraryNameNotString);
            },
        }
        i += 1;
    }
    assert(items@.take(items@.len() as int) =~= items@);
    Ok(Some(names))
}

/// An array with an element that is no string has no list of texts.
proof fn lemma_item_texts_fail(items: Seq<serde_json::Value>, i: int)
    requires
        0 <= i < items.len(),
        json_text(items[i]) is None,
    ensures
        item_texts(items) is None,
    decreases items.len(),
{
    if i < items.len() - 1 {
        lemma_item_texts_fail(items.drop_last(), i);
    }
}

/// Whether text `a` comes no later than text `b` in the order of the
/// dictionary, character by character in the order of their code points.
pub open spec fn text_le(a: Seq<char>, b: Seq<char>) -> bool
    decreases a.len(),
{
    if a.len() == 0 {
        true
    } else if b.len() == 0 {
        false
    } else if a[0] != b[0] {
        (a[0] as u32) < (b[0] as u32)
    } else {
        text_le(a.drop_first(), b.drop_first())
    }
}

/// Texts in the order of the dictionary.
pub open spec fn is_sorted(names: Seq<Seq<char>>) -> bool {
    forall|i: int, j: int| 0 <= i < j < names.len() ==> text_le(names[i], names[j])
}

/// Calls `sort` on the slice of strings: afterwards it holds the same
/// strings, as often as before, in ascending order; strings are ordered by
/// their bytes, which is the order of their code points.
#[verifier::external_body]
pub(crate) fn sort_names(names: &mut Vec<String>)
    ensures
        texts(final(names)@).to_multiset() == texts(old(names)@).to_multiset(),
        is_sorted(texts(final(names)@)),
{
    names.sort();
}

/// The first fault among the names, once trimmed, if any has one.
pub open spec fn first_name_fault(names: Seq<Seq<char>>) -> Option<PathError>
    decreases names.len(),
{
    if names.len() == 0 {
        None
    } else {
        match first_name_fault(names.drop_last()) {
            Some(fault) => Some(fault),
            None => library_name_fault(trimmed(names.last())),
        }
    }
}

/// Whether `name` is one of the names, once they are trimmed.
pub open spec fn names_given(names: Seq<Seq<char>>, name: Seq<char>) -> bool {
    exists|k: int| 0 <= k < names.len() && trimmed(#[trigger] names[k]) == name
}

/// Whether a list of strings holds the text.
fn holds_text(names: &Vec<String>, name: &str) -> (held: bool)
    ensures
        held == texts(names@).contains(name@),
{
    let mut i: usize = 0;
    while i < names.len()
        invariant
            i <= names.len(),
            forall|j: int| 0 <= j < i ==> texts(names@)[j] != name@,
        decreases names.len() - i,
    {
        if text_equal(names[i].as_str(), name) {
            assert(texts(names@)[i as int] == name@);
            return true;
        }
        i += 1;
    }
    false
}

/// The libraries that a scan works on, from the names it was given: each
/// name trimmed and checked, each library once, in the order of the
/// dictionary. The first name that is refused ends it.
pub fn prepare_target_names(names: &Vec<String>) -> (result: Result<Vec<String>, PathError>)
    ensures
        match result {
            Ok(targets) => {
                &&& first_name_fault(texts(names@)) is None
                &&& texts(targets@).no_duplicates()
                &&& is_sorted(texts(targets@))
                &&& forall|name: Seq<char>|
                    texts(targets@).contains(name) <==> names_given(texts(names@), name)
            },
            Err(fault) => first_name_fault(texts(names@)) == Some(fault),
        },
{
    let ghost given = texts(names@);
    let mut targets: Vec<String> = Vec::new();
    let mut i: usize = 0;
    proof {
        assert(given.take(0) =~= Seq::<Seq<char>>::empty());
    }
    while i < names.len()
        invariant
            i <= names.len(),
            given == texts(names@),
            first_name_fault(given.take(i as int)) is None,
            texts(targets@).no_duplicates(),
            forall|name: Seq<char>|
                texts(targets@).contains(name) <==> names_given(given.take(i as int), name),
        decreases names.len() - i,
    {
        proof {
            assert(given.take(i + 1).drop_last() =~= given.take(i as int));
            assert(given.take(i + 1).last() == given[i as int]);
        }
        let name = match normalize_library_name(names[i].as_str()) {
            Ok(name) => name,
            Err(fault) => {
                proof {
                    lemma_name_fault_stays(given, i + 1);
                }
                return Err(fault);
            },
        };
        let ghost kept = texts(targets@);
        let ghost before = given.take(i as int);
        let ghost after = given.take(i + 1);
        if !holds_text(&targets, name.as_str()) {
            let ghost listed = targets@;
            targets.push(name);
            assert(texts(targets@) =~= kept.push(name@));
        }
        proof {
            assert forall|text: Seq<char>|
                texts(targets@).contains(text) <==> names_given(after, text) by {
                if names_given(after, text) {
                    let k = choose|k: int| 0 <= k < after.len() && trimmed(#[trigger] after[k]) == text;
                    if k < i {
                        assert(before[k] == after[k]);
                        assert(names_given(before, text));
                        assert(kept.contains(text));
                        let m = choose|m: int| 0 <= m < kept.len() && kept[m] == text;
                        assert(texts(targets@)[m] == text);
                    } else {
                        assert(text == name@);
                        if kept.contains(text) {
                            let m = choose|m: int| 0 <= m < kept.len() && kept[m] == text;
                            assert(texts(targets@)[m] == text);
                        } else {
                            assert(texts(targets@)[kept.len() as int] == text);
                        }
                    }
                }
                if texts(targets@).contains(text) {
                    let m = choose|m: int| 0 <= m < texts(targets@).len() && texts(targets@)[m] == text;
                    if m < kept.len() {
                        assert(kept[m] == text);
                        assert(kept.contains(text));
                        assert(names_given(before, text));
                        let k = choose|k: int|
                            0 <= k < before.len() && trimmed(#[trigger] before[k]) == text;
                        assert(after[k] == before[k]);
                    } else {
                        assert(trimmed(after[i as int]) == text);
                    }
                }
            }
        }
        i += 1;
    }
    proof {
        assert(given.take(given.len() as int) =~= given);
    }
    let ghost unsorted = texts(targets@);
    sort_names(&mut targets);
    proof {
        let sorted = texts(targets@);
        unsorted.lemma_multiset_has_no_duplicates();
        sorted.lemma_multiset_has_no_duplicates_conv();
        unsorted.to_multiset_ensures();
        sorted.to_multiset_ensures();
        assert forall|name: Seq<char>| sorted.contains(name) <==> names_given(given, name) by {
            assert(sorted.contains(name) <==> sorted.to_multiset().count(name) > 0);
            assert(unsorted.contains(name) <==> unsorted.to_multiset().count(name) > 0);
        }
    }
    Ok(targets)
}

/// A fault among the first names stays the first fault of all names.
proof fn lemma_name_fault_stays(names: Seq<Seq<char>>, n: int)
    requires
        0 <= n <= names.len(),
        first_name_fault(names.take(n)) is Some,
    ensures
        first_name_fault(names) == first_name_fault(names.take(n)),
    decreases names.len() - n,
{
    if n < names.len() {
        assert(names.take(n + 1).drop_last() =~= names.take(n));
        lemma_name_fault_stays(names, n + 1);
    } else {
        assert(names.take(n) =~= names);
    }
}

/// A library that a scan works on.
#[derive(Clone, Debug)]
pub struct LibraryTarget {
    pub id: i64,
    pub root_path_real: String,
}

/// The largest id of a root table; zero for an empty table.
pub open spec fn max_root_id(rows: Seq<LibraryRootRow>) -> i64
    decreases rows.len(),
{
    if rows.len() == 0 {
        0
    } else {
        let front = max_root_id(rows.drop_last());
        if rows.last().id > front {
            rows.last().id
        } else {
            front
        }
    }
}

/// Which rows of a root table have the given name.
pub open spec fn root_name_flags(rows: Seq<LibraryRootRow>, name: Seq<char>) -> Seq<bool> {
    rows.map_values(|row: LibraryRootRow| row.name@ == name)
}

/// A root row as plain values.
pub struct LibraryRootView {
    pub id: i64,
    pub name: Seq<char>,
    pub root_path: Seq<char>,
    pub last_scanned_at: Option<i64>,
    pub updated_at: i64,
}

impl View for LibraryRootRow {
    type V = LibraryRootView;

    open spec fn view(&self) -> LibraryRootView {
        LibraryRootView {
            id: self.id,
            name: self.name@,
            root_path: self.root_path@,
            last_scanned_at: self.last_scanned_at,
            updated_at: self.updated_at,
        }
    }
}

/// The rows of a root table as plain values.
pub open spec fn root_views(rows: Seq<LibraryRootRow>) -> Seq<LibraryRootView> {
    rows.map_values(|row: LibraryRootRow| row@)
}

/// The path under the libraries root at which the library `name` is looked
/// up.
pub fn library_root_path(config: &WorkerConfig, name: &str) -> (path: String)
    ensures
        path@ == joined_path(config.libraries_root@, name@),
{
    join_under(config.libraries_root.as_str(), name)
}

/// Why a library root is refused, if it is.
pub open spec fn library_root_fault(
    libraries_root_real: Seq<char>,
    root_real: Seq<char>,
    is_dir: bool,
) -> Option<ScanError> {
    if !path_has_prefix(root_real, libraries_root_real) {
        Some(ScanError::Path(PathError::EscapesRoot))
    } else if !is_dir {
        Some(ScanError::RootNotDirectory)
    } else {
        None
    }
}

/// Registers the library `name` with the root it resolved to on disk. The
/// root has to lie under the libraries root and to be a directory. A library
/// that is known gets the new root; one that is not is added with the next
/// free id.
pub fn register_library_root(
    roots: &mut Vec<LibraryRootRow>,
    config: &WorkerConfig,
    name: &str,
    root_real: &str,
    is_dir: bool,
    now: i64,
) -> (result: Result<LibraryTarget, ScanError>)
    ensures
        ({
            let before = old(roots)@;
            match library_root_fault(config.libraries_root_real@, root_real@, is_dir) {
                Some(fault) => result == Err::<LibraryTarget, ScanError>(fault) && final(roots)@
                    == before,
                None => {
                    &&& result matches Ok(target)
                    &&& target.root_path_real@ == root_real@
                    &&& match first_flagged(root_name_flags(before, name@)) {
                        Some(i) => {
                            &&& target.id == before[i].id
                            &&& root_views(final(roots)@) == root_views(before).update(
                                i,
                                LibraryRootView {
                                    root_path: root_real@,
                                    updated_at: now,
                                    ..before[i]@
                                },
                            )
                        },
                        None => {
                            &&& target.id == bumped(max_root_id(before))
                            &&& root_views(final(roots)@) == root_views(before).push(
                                LibraryRootView {
                                    id: target.id,
                                    name: name@,
                                    root_path: root_real@,
                                    last_scanned_at: None,
                                    updated_at: now,
                                },
                            )
                        },
                    }
                },
            }
        }),
{
    if !path_starts_with(root_real, config.libraries_root_real.as_str()) {
        return Err(ScanError::Path(PathError::EscapesRoot));
    }
    if !is_dir {
        return Err(ScanError::RootNotDirectory);
    }
    let ghost before = roots@;
    let mut flags: Vec<bool> = Vec::new();
    let mut largest: i64 = 0;
    let mut i: usize = 0;
    assert(before.take(0) =~= Seq::<LibraryRootRow>::empty());
    while i < roots.len()
        invariant
            i <= roots.len(),
            before == roots@,
            flags@.len() == i,
            forall|j: int| 0 <= j < i ==> #[trigger] flags@[j] == (before[j].name@ == name@),
            largest == max_root_id(before.take(i as int)),
        decreases roots.len() - i,
    {
        proof {
            assert(before.take(i + 1).drop_last() =~= before.take(i as int));
            assert(before.take(i + 1).last() == before[i as int]);
        }
        flags.push(text_equal(roots[i].name.as_str(), name));
        if roots[i].id > largest {
            largest = roots[i].id;
        }
        i += 1;
    }
    assert(before.take(before.len() as int) =~= before);
    assert(flags@ =~= root_name_flags(before, name@));
    match find_flagged(&flags) {
        Some(pick) => {
            let row = &mut roots[pick];
            row.root_path = String::from_str(root_real);
            row.updated_at = now;
            let id = row.id;
            assert(root_views(roots@) =~= root_views(before).update(
                pick as int,
                LibraryRootView { root_path: root_real@, updated_at: now, ..before[pick as int]@ },
            ));
            Ok(LibraryTarget { id, root_path_real: String::from_str(root_real) })
        },
        None => {
            let id = bump(largest);
            roots.push(
                LibraryRootRow {
                    id,
                    name: String::from_str(name),
                    root_path: String::from_str(root_real),
                    last_scanned_at: None,
                    updated_at: now,
                },
            );
            assert(root_views(roots@) =~= root_views(before).push(
                LibraryRootView {
                    id,
                    name: name@,
                    root_path: root_real@,
                    last_scanned_at: None,
                    updated_at: now,
                },
            ));
            Ok(LibraryTarget { id, root_path_real: String::from_str(root_real) })
        },
    }
}

/// A file as a scan saw it.
#[derive(Clone, Debug)]
pub struct ScannedFile {
    pub library_id: i64,
    pub relative_path: String,
    pub size_bytes: i64,
    pub mtime_ns: i64,
    pub inode: Option<i64>,
    pub device: Option<i64>,
    pub scan_id: i64,
}

/// A [`ScannedFile`] as plain values.
pub struct ScannedFileView {
    pub library_id: i64,
    pub relative_path: Seq<char>,
    pub size_bytes: i64,
    pub mtime_ns: i64,
    pub inode: Option<i64>,
    pub device: Option<i64>,
    pub scan_id: i64,
}

impl View for ScannedFile {
    type V = ScannedFileView;

    open spec fn view(&self) -> ScannedFileView {
        ScannedFileView {
            library_id: self.library_id,
            relative_path: self.relative_path@,
            size_bytes: self.size_bytes,
            mtime_ns: self.mtime_ns,
            inode: self.inode,
            device: self.device,
            scan_id: self.scan_id,
        }
    }
}

/// The files of a batch as plain values.
pub open spec fn scanned_views(batch: Seq<ScannedFile>) -> Seq<ScannedFileView> {
    batch.map_values(|file: ScannedFile| file@)
}

/// A number that is not set compares as minus one.
pub open spec fn or_minus_one(value: Option<i64>) -> i64 {
    match value {
        Some(number) => number,
        None => -1i64,
    }
}

/// The invalidation rule: what a scan saw differs from what the row holds
/// in size, modification time, inode or device, or the row was marked
/// missing.
pub open spec fn invalidates(row: FileRowView, seen: ScannedFileView) -> bool {
    ||| row.size_bytes != seen.size_bytes
    ||| row.mtime_ns != seen.mtime_ns
    ||| or_minus_one(row.inode) != or_minus_one(seen.inode)
    ||| or_minus_one(row.device) != or_minus_one(seen.device)
    ||| row.is_missing
}

/// The row of a file that a scan saw again: it takes what the scan saw and
/// is no longer missing; where the invalidation rule applies it needs a hash
/// and loses its digest, its hash errors and its hash claim, else it keeps
/// them.
pub open spec fn upserted(row: FileRowView, seen: ScannedFileView, now: i64) -> FileRowView {
    let taken = FileRowView {
        size_bytes: seen.size_bytes,
        mtime_ns: seen.mtime_ns,
        inode: seen.inode,
        device: seen.device,
        is_missing: false,
        last_seen_scan_id: Some(seen.scan_id),
        updated_at: now,
        ..row
    };
    if invalidates(row, seen) {
        FileRowView {
            needs_hash: true,
            hash_algorithm: None,
            content_hash: None,
            hashed_size_bytes: None,
            hashed_mtime_ns: None,
            hashed_at: None,
            hash_error_count: Some(0),
            hash_last_error: None,
            hash_last_error_at: None,
            hash_retry_after: None,
            hash_claim_token: None,
            hash_claimed_at: None,
            ..taken
        }
    } else {
        taken
    }
}

/// The row of a file that a scan saw for the first time.
pub open spec fn inserted(id: i64, seen: ScannedFileView, now: i64) -> FileRowView {
    FileRowView {
        id,
        library_id: seen.library_id,
        relative_path: seen.relative_path,
        size_bytes: seen.size_bytes,
        mtime_ns: seen.mtime_ns,
        inode: seen.inode,
        device: seen.device,
        is_missing: false,
        needs_hash: true,
        last_seen_scan_id: Some(seen.scan_id),
        hash_algorithm: None,
        content_hash: None,
        hashed_size_bytes: None,
        hashed_mtime_ns: None,
        hashed_at: None,
        hash_claim_token: None,
        hash_claimed_at: None,
        hash_error_count: None,
        hash_last_error: None,
        hash_last_error_at: None,
        hash_retry_after: None,
        updated_at: now,
    }
}

/// The largest id of a file table; zero for an empty table.
pub open spec fn max_file_id(rows: Seq<FileRowView>) -> i64
    decreases rows.len(),
{
    if rows.len() == 0 {
        0
    } else {
        let front = max_file_id(rows.drop_last());
        if rows.last().id > front {
            rows.last().id
        } else {
            front
        }
    }
}

/// Which rows of a file table stand for the given path of the given
/// library.
pub open spec fn file_path_flags(rows: Seq<FileRowView>, library_id: i64, path: Seq<char>) -> Seq<
    bool,
> {
    rows.map_values(|row: FileRowView| row.library_id == library_id && row.relative_path == path)
}

/// The file table after one file that a scan saw was written.
pub open spec fn with_file_upserted(rows: Seq<FileRowView>, seen: ScannedFileView, now: i64) -> Seq<
    FileRowView,
> {
    match first_flagged(file_path_flags(rows, seen.library_id, seen.relative_path)) {
        Some(i) => rows.update(i, upserted(rows[i], seen, now)),
        None => rows.push(inserted(bumped(max_file_id(rows)), seen, now)),
    }
}

/// The file table after a batch of files that a scan saw was written, one
/// after the other.
pub open spec fn with_batch_upserted(
    rows: Seq<FileRowView>,
    batch: Seq<ScannedFileView>,
    now: i64,
) -> Seq<FileRowView>
    decreases batch.len(),
{
    if batch.len() == 0 {
        rows
    } else {
        with_file_upserted(with_batch_upserted(rows, batch.drop_last(), now), batch.last(), now)
    }
}

/// Writes one file that a scan saw.
pub fn upsert_file(files: &mut Vec<FileRow>, seen: &ScannedFile, now: i64)
    ensures
        file_views(final(files)@) == with_file_upserted(file_views(old(files)@), seen@, now),
{
    let ghost before = file_views(files@);
    let mut flags: Vec<bool> = Vec::new();
    let mut largest: i64 = 0;
    let mut i: usize = 0;
    assert(before.take(0) =~= Seq::<FileRowView>::empty());
    while i < files.len()
        invariant
            i <= files.len(),
            before == file_views(files@),
            flags@.len() == i,
            forall|j: int|
                0 <= j < i ==> #[trigger] flags@[j] == (before[j].library_id == seen.library_id
                    && before[j].relative_path == seen.relative_path@),
            largest == max_file_id(before.take(i as int)),
        decreases files.len() - i,
    {
        proof {
            assert(before.take(i + 1).drop_last() =~= before.take(i as int));
            assert(before.take(i + 1).last() == before[i as int]);
        }
        let row = &files[i];
        flags.push(
            row.library_id == seen.library_id && text_equal(
                row.relative_path.as_str(),
                seen.relative_path.as_str(),
            ),
        );
        if row.id > largest {
            largest = row.id;
        }
        i += 1;
    }
    assert(before.take(before.len() as int) =~= before);
    assert(flags@ =~= file_path_flags(before, seen.library_id, seen.relative_path@));
    match find_flagged(&flags) {
        Some(pick) => {
            let row = &mut files[pick];
            let inode_was = match row.inode {
                Some(number) => number,
                None => -1,
            };
            let inode_is = match seen.inode {
                Some(number) => number,
                None => -1,
            };
            let device_was = match row.device {
                Some(number) => number,
                None => -1,
            };
            let device_is = match seen.device {
                Some(number) => number,
                None => -1,
            };
            let invalid = row.size_bytes != seen.size_bytes || row.mtime_ns != seen.mtime_ns
                || inode_was != inode_is || device_was != device_is || row.is_missing;
            row.size_bytes = seen.size_bytes;
            row.mtime_ns = seen.mtime_ns;
            row.inode = seen.inode;
            row.device = seen.device;
            row.is_missing = false;
            row.last_seen_scan_id = Some(seen.scan_id);
            row.updated_at = now;
            if invalid {
                row.needs_hash = true;
                row.hash_algorithm = None;
                row.content_hash = None;
                row.hashed_size_bytes = None;
                row.hashed_mtime_ns = None;
                row.hashed_at = None;
                row.hash_error_count = Some(0);
                row.hash_last_error = None;
                row.hash_last_error_at = None;
                row.hash_retry_after = None;
                row.hash_claim_token = None;
                row.hash_claimed_at = None;
            }
            assert(file_views(files@) =~= before.update(
                pick as int,
                upserted(before[pick as int], seen@, now),
            ));
        },
        None => {
            let row = FileRow {
                id: bump(largest),
                library_id: seen.library_id,
                relative_path: seen.relative_path.clone(),
                size_bytes: seen.size_bytes,
                mtime_ns: seen.mtime_ns,
                inode: seen.inode,
                device: seen.device,
                is_missing: false,
                needs_hash: true,
                last_seen_scan_id: Some(seen.scan_id),
                hash_algorithm: None,
                content_hash: None,
                hashed_size_bytes: None,
                hashed_mtime_ns: None,
                hashed_at: None,
                hash_claim_token: None,
                hash_claimed_at: None,
                hash_error_count: None,
                hash_last_error: None,
                hash_last_error_at: None,
                hash_retry_after: None,
                updated_at: now,
            };
            files.push(row);
            assert(file_views(files@) =~= before.push(
                inserted(bumped(max_file_id(before)), seen@, now),
            ));
        },
    }
}

/// Writes a batch of files that a scan saw, one after the other: a file
/// that is known is updated under the invalidation rule, one that is not is
/// added as a file that needs a hash.
pub fn upsert_file_batch(files: &mut Vec<FileRow>, rows: &Vec<ScannedFile>, now: i64)
    ensures
        file_views(final(files)@) == with_batch_upserted(
            file_views(old(files)@),
            scanned_views(rows@),
            now,
        ),
{
    let ghost batch = scanned_views(rows@);
    let mut i: usize = 0;
    assert(batch.take(0) =~= Seq::<ScannedFileView>::empty());
    while i < rows.len()
        invariant
            i <= rows.len(),
            batch == scanned_views(rows@),
            file_views(files@) == with_batch_upserted(
                file_views(old(files)@),
                batch.take(i as int),
                now,
            ),
        decreases rows.len() - i,
    {
        proof {
            assert(batch.take(i + 1).drop_last() =~= batch.take(i as int));
            assert(batch.take(i + 1).last() == batch[i as int]);
        }
        upsert_file(files, &rows[i], now);
        i += 1;
    }
    assert(batch.take(batch.len() as int) =~= batch);
}

/// A scan that sees a file as the store holds it changes neither the
/// file's digest nor whether it needs a hash; so a second scan of a tree that
/// did not change leaves both as the first scan left them.
pub proof fn lemma_rescan_of_unchanged_file_keeps_hash(
    row: FileRowView,
    first: ScannedFileView,
    second: ScannedFileView,
    now: i64,
    later: i64,
)
    requires
        second.size_bytes == first.size_bytes,
        second.mtime_ns == first.mtime_ns,
        second.inode == first.inode,
        second.device == first.device,
    ensures
        !invalidates(row, first) ==> upserted(row, first, now).content_hash == row.content_hash
            && upserted(row, first, now).needs_hash == row.needs_hash,
        upserted(upserted(row, first, now), second, later).content_hash == upserted(
            row,
            first,
            now,
        ).content_hash,
        upserted(upserted(row, first, now), second, later).needs_hash == upserted(
            row,
            first,
            now,
        ).needs_hash,
        upserted(inserted(row.id, first, now), second, later).needs_hash == inserted(
            row.id,
            first,
            now,
        ).needs_hash,
        upserted(inserted(row.id, first, now), second, later).content_hash == inserted(
            row.id,
            first,
            now,
        ).content_hash,
{
}

/// Whatever a scan writes on a row, a digest on the row stays described by
/// the size and time it was computed for.
pub proof fn lemma_scan_keeps_digest_described(row: FileRowView, seen: ScannedFileView, now: i64)
    requires
        crate::hash::digest_is_described(row),
    ensures
        crate::hash::digest_is_described(upserted(row, seen, now)),
        crate::hash::digest_is_described(inserted(row.id, seen, now)),
        crate::hash::digest_is_described(row.marked_missing(now)),
{
}

/// Whether a scan of library `library_id` under session `scan_session_id`
/// did not see the file though the store holds it as present.
pub open spec fn is_unseen(row: FileRowView, library_id: i64, scan_session_id: i64) -> bool {
    &&& row.library_id == library_id
    &&& row.last_seen_scan_id != Some(scan_session_id)
    &&& !row.is_missing
}

/// The file table after the files that a scan did not see were marked
/// missing.
pub open spec fn with_unseen_marked(
    rows: Seq<FileRowView>,
    library_id: i64,
    scan_session_id: i64,
    now: i64,
) -> Seq<FileRowView> {
    rows.map_values(
        |row: FileRowView|
            if is_unseen(row, library_id, scan_session_id) {
                row.marked_missing(now)
            } else {
                row
            },
    )
}

/// How many files a scan did not see.
pub open spec fn unseen_count(rows: Seq<FileRowView>, library_id: i64, scan_session_id: i64) -> nat
    decreases rows.len(),
{
    if rows.len() == 0 {
        0
    } else {
        unseen_count(rows.drop_last(), library_id, scan_session_id) + if is_unseen(
            rows.last(),
            library_id,
            scan_session_id,
        ) {
            1nat
        } else {
            0nat
        }
    }
}

/// Marks the files of a library that the scan session did not see as
/// missing, and tells how many it marked.
pub fn mark_missing_files(
    files: &mut Vec<FileRow>,
    library_id: i64,
    scan_session_id: i64,
    now: i64,
) -> (marked: i64)
    ensures
        file_views(final(files)@) == with_unseen_marked(
            file_views(old(files)@),
            library_id,
            scan_session_id,
            now,
        ),
        marked == clamp_instant(
            unseen_count(file_views(old(files)@), library_id, scan_session_id) as int,
        ),
{
    let ghost before = file_views(files@);
    let mut marked: i64 = 0;
    let mut i: usize = 0;
    assert(before.take(0) =~= Seq::<FileRowView>::empty());
    while i < files.len()
        invariant
            i <= files.len(),
            files.len() == before.len(),
            before == file_views(old(files)@),
            marked == clamp_instant(
                unseen_count(before.take(i as int), library_id, scan_session_id) as int,
            ),
            forall|j: int|
                0 <= j < i ==> (#[trigger] files@[j])@ == with_unseen_marked(
                    before,
                    library_id,
                    scan_session_id,
                    now,
                )[j],
            forall|j: int| i <= j < files.len() ==> (#[trigger] files@[j])@ == before[j],
        decreases files.len() - i,
    {
        proof {
            assert(before.take(i + 1).drop_last() =~= before.take(i as int));
            assert(before.take(i + 1).last() == before[i as int]);
        }
        let row = &mut files[i];
        let seen = match row.last_seen_scan_id {
            Some(session) => session == scan_session_id,
            None => false,
        };
        if row.library_id == library_id && !seen && !row.is_missing {
            row.is_missing = true;
            row.needs_hash = false;
            row.hash_claim_token = None;
            row.hash_claimed_at = None;
            row.hash_retry_after = None;
            row.updated_at = now;
            marked = bump(marked);
        }
        i += 1;
    }
    assert(before.take(before.len() as int) =~= before);
    assert(file_views(files@) =~= with_unseen_marked(before, library_id, scan_session_id, now));
    marked
}

/// Where a scan session stands.
#[derive(Clone, Copy, Debug, PartialEq, Eq, Structural)]
pub enum ScanSessionStatus {
    Running,
    Succeeded,
    Failed,
}

/// The name under which the status of a session is stored.
pub open spec fn session_status_name(status: ScanSessionStatus) -> Seq<char> {
    match status {
        ScanSessionStatus::Running => "running"@,
        ScanSessionStatus::Succeeded => "succeeded"@,
        ScanSessionStatus::Failed => "failed"@,
    }
}

/// The status of a session stored under a name, if the name is one.
pub open spec fn session_status_named(name: Seq<char>) -> Option<ScanSessionStatus> {
    if name == "running"@ {
        Some(ScanSessionStatus::Running)
    } else if name == "succeeded"@ {
        Some(ScanSessionStatus::Succeeded)
    } else if name == "failed"@ {
        Some(ScanSessionStatus::Failed)
    } else {
        None
    }
}

impl ScanSessionStatus {
    /// The name under which the status is stored.
    pub fn as_db_value(self) -> (name: &'static str)
        ensures
            name@ == session_status_name(self),
    {
        match self {
            ScanSessionStatus::Running => "running",
            ScanSessionStatus::Succeeded => "succeeded",
            ScanSessionStatus::Failed => "failed",
        }
    }

    /// The status with exactly this stored name.
    pub fn parse(raw: &str) -> (status: Option<ScanSessionStatus>)
        ensures
            status == session_status_named(raw@),
    {
        if text_equal(raw, "running") {
            Some(ScanSessionStatus::Running)
        } else if text_equal(raw, "succeeded") {
            Some(ScanSessionStatus::Succeeded)
        } else if text_equal(raw, "failed") {
            Some(ScanSessionStatus::Failed)
        } else {
            None
        }
    }
}

/// A scan session as the store holds it.
#[derive(Clone, Debug, PartialEq, Eq)]
pub struct ScanSessionRow {
    pub id: i64,
    pub status: ScanSessionStatus,
    pub files_seen: i64,
    pub directories_seen: i64,
    pub bytes_seen: i64,
    pub error_count: i64,
    pub error_message: Option<String>,
    pub started_at: i64,
    pub finished_at: Option<i64>,
}

/// A [`ScanSessionRow`] as plain values.
pub struct ScanSessionView {
    pub id: i64,
    pub status: ScanSessionStatus,
    pub files_seen: i64,
    pub directories_seen: i64,
    pub bytes_seen: i64,
    pub error_count: i64,
    pub error_message: Option<Seq<char>>,
    pub started_at: i64,
    pub finished_at: Option<i64>,
}

impl View for ScanSessionRow {
    type V = ScanSessionView;

    open spec fn view(&self) -> ScanSessionView {
        ScanSessionView {
            id: self.id,
            status: self.status,
            files_seen: self.files_seen,
            directories_seen: self.directories_seen,
            bytes_seen: self.bytes_seen,
            error_count: self.error_count,
            error_message: text_view(self.error_message),
            started_at: self.started_at,
            finished_at: self.finished_at,
        }
    }
}

/// The rows of a session table as plain values.
pub open spec fn session_views(rows: Seq<ScanSessionRow>) -> Seq<ScanSessionView> {
    rows.map_values(|row: ScanSessionRow| row@)
}

/// The largest id of a session table; zero for an empty table.
pub open spec fn max_session_id(rows: Seq<ScanSessionView>) -> i64
    decreases rows.len(),
{
    if rows.len() == 0 {
        0
    } else {
        let front = max_session_id(rows.drop_last());
        if rows.last().id > front {
            rows.last().id
        } else {
            front
        }
    }
}

/// Which rows of a session table have the given id.
pub open spec fn session_id_flags(rows: Seq<ScanSessionView>, id: i64) -> Seq<bool> {
    rows.map_values(|row: ScanSessionView| row.id == id)
}

/// Opens a scan session: a running session with the next free id, which
/// tags every file that the scan writes.
pub fn create_scan_session(sessions: &mut Vec<ScanSessionRow>, now: i64) -> (id: i64)
    ensures
        id == bumped(max_session_id(session_views(old(sessions)@))),
        session_views(final(sessions)@) == session_views(old(sessions)@).push(
            ScanSessionView {
                id,
                status: ScanSessionStatus::Running,
                files_seen: 0,
                directories_seen: 0,
                bytes_seen: 0,
                error_count: 0,
                error_message: None,
                started_at: now,
                finished_at: None,
            },
        ),
{
    let ghost before = session_views(sessions@);
    let mut largest: i64 = 0;
    let mut i: usize = 0;
    assert(before.take(0) =~= Seq::<ScanSessionView>::empty());
    while i < sessions.len()
        invariant
            i <= sessions.len(),
            before == session_views(sessions@),
            largest == max_session_id(before.take(i as int)),
        decreases sessions.len() - i,
    {
        proof {
            assert(before.take(i + 1).drop_last() =~= before.take(i as int));
            assert(before.take(i + 1).last() == before[i as int]);
        }
        if sessions[i].id > largest {
            largest = sessions[i].id;
        }
        i += 1;
    }
    assert(before.take(before.len() as int) =~= before);
    let id = bump(largest);
    sessions.push(
        ScanSessionRow {
            id,
            status: ScanSessionStatus::Running,
            files_seen: 0,
            directories_seen: 0,
            bytes_seen: 0,
            error_count: 0,
            error_message: None,
            started_at: now,
            finished_at: None,
        },
    );
    assert(session_views(sessions@) =~= before.push(
        ScanSessionView {
            id,
            status: ScanSessionStatus::Running,
            files_seen: 0,
            directories_seen: 0,
            bytes_seen: 0,
            error_count: 0,
            error_message: None,
            started_at: now,
            finished_at: None,
        },
    ));
    id
}

/// The session once its scan is over: succeeded without errors, else
/// failed with the message that lists them.
pub open spec fn session_finished(
    row: ScanSessionView,
    counters: ScanCountersView,
    now: i64,
) -> ScanSessionView {
    if counters.error_count == 0 {
        ScanSessionView {
            status: ScanSessionStatus::Succeeded,
            finished_at: Some(now),
            files_seen: counters.files_seen,
            directories_seen: counters.directories_seen,
            bytes_seen: counters.bytes_seen,
            error_count: 0,
            error_message: None,
            ..row
        }
    } else {
        ScanSessionView {
            status: ScanSessionStatus::Failed,
            finished_at: Some(now),
            files_seen: counters.files_seen,
            directories_seen: counters.directories_seen,
            bytes_seen: counters.bytes_seen,
            error_count: counters.error_count,
            error_message: Some(scan_error_message(counters.error_count, counters.error_samples)),
            ..row
        }
    }
}

/// The session table with the session of the given id finished; the table
/// as it is where no session has the id.
pub open spec fn with_session_finished(
    rows: Seq<ScanSessionView>,
    id: i64,
    counters: ScanCountersView,
    now: i64,
) -> Seq<ScanSessionView> {
    match first_flagged(session_id_flags(rows, id)) {
        Some(i) => rows.update(i, session_finished(rows[i], counters, now)),
        None => rows,
    }
}

/// Closes a scan session with the final tallies.
pub fn finish_scan_session(
    sessions: &mut Vec<ScanSessionRow>,
    id: i64,
    counters: &ScanCounters,
    now: i64,
)
    ensures
        session_views(final(sessions)@) == with_session_finished(
            session_views(old(sessions)@),
            id,
            counters@,
            now,
        ),
{
    let ghost before = session_views(sessions@);
    let mut flags: Vec<bool> = Vec::new();
    let mut i: usize = 0;
    while i < sessions.len()
        invariant
            i <= sessions.len(),
            before == session_views(sessions@),
            flags@.len() == i,
            forall|j: int| 0 <= j < i ==> #[trigger] flags@[j] == (before[j].id == id),
        decreases sessions.len() - i,
    {
        flags.push(sessions[i].id == id);
        i += 1;
    }
    assert(flags@ =~= session_id_flags(before, id));
    let pick = match find_flagged(&flags) {
        Some(pick) => pick,
        None => {
            return ;
        },
    };
    let row = &mut sessions[pick];
    row.finished_at = Some(now);
    row.files_seen = counters.files_seen;
    row.directories_seen = counters.directories_seen;
    row.bytes_seen = counters.bytes_seen;
    if counters.error_count == 0 {
        row.status = ScanSessionStatus::Succeeded;
        row.error_count = 0;
        row.error_message = None;
    } else {
        row.status = ScanSessionStatus::Failed;
        row.error_count = counters.error_count;
        row.error_message = Some(format_error_message(counters.error_count, &counters.error_samples));
    }
    assert(session_views(sessions@) =~= before.update(
        pick as int,
        session_finished(before[pick as int], counters@, now),
    ));
}

/// The file table after the missing pass over the targets, one after the
/// other.
pub open spec fn with_targets_swept(
    rows: Seq<FileRowView>,
    targets: Seq<LibraryTarget>,
    scan_session_id: i64,
    now: i64,
) -> Seq<FileRowView>
    decreases targets.len(),
{
    if targets.len() == 0 {
        rows
    } else {
        with_unseen_marked(
            with_targets_swept(rows, targets.drop_last(), scan_session_id, now),
            targets.last().id,
            scan_session_id,
            now,
        )
    }
}

/// Whether `id` is the id of one of the targets.
pub open spec fn is_target(targets: Seq<LibraryTarget>, id: i64) -> bool {
    exists|k: int| 0 <= k < targets.len() && (#[trigger] targets[k]).id == id
}

/// The root table after the scan of the targets was noted on their roots.
pub open spec fn with_roots_scanned(
    rows: Seq<LibraryRootView>,
    targets: Seq<LibraryTarget>,
    now: i64,
) -> Seq<LibraryRootView> {
    rows.map_values(
        |row: LibraryRootView|
            if is_target(targets, row.id) {
                LibraryRootView { last_scanned_at: Some(now), updated_at: now, ..row }
            } else {
                row
            },
    )
}

/// Whether `id` is the id of one of the targets.
fn targets_hold(targets: &Vec<LibraryTarget>, id: i64) -> (held: bool)
    ensures
        held == is_target(targets@, id),
{
    let mut i: usize = 0;
    while i < targets.len()
        invariant
            i <= targets.len(),
            forall|j: int| 0 <= j < i ==> (#[trigger] targets@[j]).id != id,
        decreases targets.len() - i,
    {
        if targets[i].id == id {
            return true;
        }
        i += 1;
    }
    false
}

/// Ends a scan. A scan without errors marks the files it did not see as
/// missing, notes the scan on the roots of its targets and closes its
/// session as succeeded. A scan that met errors marks nothing missing and
/// touches no root: it closes its session as failed and fails with the
/// message that lists the errors.
pub fn conclude_scan(
    sessions: &mut Vec<ScanSessionRow>,
    roots: &mut Vec<LibraryRootRow>,
    files: &mut Vec<FileRow>,
    targets: &Vec<LibraryTarget>,
    counters: &ScanCounters,
    scan_session_id: i64,
    now: i64,
) -> (result: Result<(), ScanError>)
    ensures
        session_views(final(sessions)@) == with_session_finished(
            session_views(old(sessions)@),
            scan_session_id,
            counters@,
            now,
        ),
        counters.error_count == 0 ==> {
            &&& result is Ok
            &&& file_views(final(files)@) == with_targets_swept(
                file_views(old(files)@),
                targets@,
                scan_session_id,
                now,
            )
            &&& root_views(final(roots)@) == with_roots_scanned(
                root_views(old(roots)@),
                targets@,
                now,
            )
        },
        counters.error_count != 0 ==> {
            &&& result matches Err(ScanError::AccessErrors(message))
            &&& message@ == scan_error_message(counters.error_count, counters@.error_samples)
            &&& file_views(final(files)@) == file_views(old(files)@)
            &&& root_views(final(roots)@) == root_views(old(roots)@)
        },
{
    finish_scan_session(sessions, scan_session_id, counters, now);
    if counters.error_count != 0 {
        return Err(
            ScanError::AccessErrors(
                format_error_message(counters.error_count, &counters.error_samples),
            ),
        );
    }
    let ghost files_before = file_views(files@);
    let mut k: usize = 0;
    assert(targets@.take(0) =~= Seq::<LibraryTarget>::empty());
    while k < targets.len()
        invariant
            k <= targets.len(),
            file_views(files@) == with_targets_swept(
                files_before,
                targets@.take(k as int),
                scan_session_id,
                now,
            ),
        decreases targets.len() - k,
    {
        proof {
            assert(targets@.take(k + 1).drop_last() =~= targets@.take(k as int));
            assert(targets@.take(k + 1).last() == targets@[k as int]);
        }
        mark_missing_files(files, targets[k].id, scan_session_id, now);
        k += 1;
    }
    assert(targets@.take(targets@.len() as int) =~= targets@);
    let ghost roots_before = root_views(roots@);
    let mut r: usize = 0;
    while r < roots.len()
        invariant
            r <= roots.len(),
            roots.len() == roots_before.len(),
            roots_before == root_views(old(roots)@),
            forall|j: int|
                0 <= j < r ==> (#[trigger] roots@[j])@ == with_roots_scanned(
                    roots_before,
                    targets@,
                    now,
                )[j],
            forall|j: int| r <= j < roots.len() ==> (#[trigger] roots@[j])@ == roots_before[j],
        decreases roots.len() - r,
    {
        if targets_hold(targets, roots[r].id) {
            let row = &mut roots[r];
            row.last_scanned_at = Some(now);
            row.updated_at = now;
        }
        r += 1;
    }
    assert(root_views(roots@) =~= with_roots_scanned(roots_before, targets@, now));
    Ok(())
}

/// The number of files that a scan writes at a time: the payload's
/// `batch_size` where it has one, but at least one, else the configured
/// size.
pub fn scan_batch_size(job: &JobRecord, config: &WorkerConfig) -> (size: usize)
    ensures
        size == match payload_u64(job.payload, "batch_size"@) {
            Some(number) => crate::hash::batch_size_from(number),
            None => config.scan_write_batch_size,
        },
{
    match extract_optional_u64(&job.payload, "batch_size") {
        Some(number) => {
            if number < 1 {
                1
            } else if number > usize::MAX as u64 {
                usize::MAX
            } else {
                number as usize
            }
        },
        None => config.scan_write_batch_size,
    }
}

/// What `path` is called from `base`: the items of `path` behind those of
/// `base`, joined by `/`.
pub open spec fn relative_under(path: Seq<char>, base: Seq<char>) -> Seq<char> {
    join_components(path_items(path).skip(path_items(base).len() as int))
}

/// What `path`, which lies under `base`, is called from `base`.
pub fn strip_base(path: &str, base: &str) -> (relative: String)
    requires
        path_has_prefix(path@, base@),
    ensures
        relative@ == relative_under(path@, base@),
{
    let items = path_items_of(path);
    let prefix = path_items_of(base);
    let mut rest: Vec<String> = Vec::new();
    let mut i: usize = prefix.len();
    proof {
        assert(texts(items@).skip(prefix@.len() as int).take(0) =~= Seq::<Seq<char>>::empty());
        assert(texts(rest@) =~= Seq::<Seq<char>>::empty());
    }
    while i < items.len()
        invariant
            prefix.len() <= i <= items.len(),
            texts(rest@) == texts(items@).skip(prefix@.len() as int).take(i - prefix@.len()),
        decreases items.len() - i,
    {
        let item = items[i].clone();
        let ghost kept = rest@;
        rest.push(item);
        proof {
            let tail = texts(items@).skip(prefix@.len() as int);
            assert(texts(rest@) =~= texts(kept).push(item@));
            assert(tail.take(i + 1 - prefix@.len()) =~= tail.take(i - prefix@.len()).push(
                texts(items@)[i as int],
            ));
        }
        i += 1;
    }
    proof {
        let tail = texts(items@).skip(prefix@.len() as int);
        assert(tail.take(tail.len() as int) =~= tail);
        reveal_strlit("/");
        assert("/"@ =~= seq!['/']);
    }
    join_strings(&rest, "/")
}

/// What kind of thing an entry of a directory is.
#[derive(Clone, Copy, Debug, PartialEq, Eq, Structural)]
pub enum EntryKind {
    Directory,
    File,
    Other,
}

/// What a look at one entry of a directory told.
#[derive(Debug)]
pub enum EntryObservation {
    /// The entry could not be read from the directory `directory`.
    ListingFailed { directory: String, message: String },
    /// The metadata of the entry at `path` could not be read.
    StatFailed { path: String, message: String },
    /// The entry is a symbolic link.
    Symlink,
    /// The entry at `path` could not be resolved on disk.
    ResolveFailed { path: String, message: String },
    /// The entry resolved to `resolved` and has this metadata.
    Resolved {
        resolved: String,
        kind: EntryKind,
        size: u64,
        mtime_seconds: i64,
        mtime_nanos: i64,
        inode: u64,
        device: u64,
    },
}

/// What the walk asks for after an entry.
#[derive(Clone, Copy, Debug, PartialEq, Eq, Structural)]
pub struct EntryAction {
    /// The job's lease is to be renewed: after every 256th file.
    pub refresh_lease: bool,
    /// The batch is full and is to be written.
    pub flush_batch: bool,
}

/// Nothing is asked for.
pub open spec fn no_action() -> EntryAction {
    EntryAction { refresh_lease: false, flush_batch: false }
}

/// The walk over one library.
#[derive(Debug)]
pub struct ScanWalk {
    pub counters: ScanCounters,
    /// The directories still to be listed; the last one is listed next.
    pub pending: Vec<String>,
    /// The files seen since the last write.
    pub batch: Vec<ScannedFile>,
}

/// A [`ScanWalk`] as plain values.
pub struct ScanWalkView {
    pub counters: ScanCountersView,
    pub pending: Seq<Seq<char>>,
    pub batch: Seq<ScannedFileView>,
}

impl View for ScanWalk {
    type V = ScanWalkView;

    open spec fn view(&self) -> ScanWalkView {
        ScanWalkView {
            counters: self.counters@,
            pending: texts(self.pending@),
            batch: scanned_views(self.batch@),
        }
    }
}

/// What became of an entry that resolved to a file under the root.
pub enum FileVerdict {
    /// The file is noted as seen.
    Seen(ScannedFileView),
    /// The walk fails.
    Refused(ScanError),
}

/// What becomes of a regular file that resolved to `resolved` under the
/// library root: it is noted under its path from the root, unless that path
/// or its metadata cannot be stored.
pub open spec fn file_verdict(
    target: LibraryTarget,
    scan_session_id: i64,
    resolved: Seq<char>,
    size: u64,
    mtime_seconds: i64,
    mtime_nanos_part: i64,
    inode: u64,
    device: u64,
) -> FileVerdict {
    let relative = relative_under(resolved, target.root_path_real@);
    match posix_form_fault(relative) {
        Some(fault) => FileVerdict::Refused(ScanError::Path(fault)),
        None => if size > i64::MAX {
            FileVerdict::Refused(ScanError::Metadata(MetadataError::SizeOutOfRange))
        } else if inode > i64::MAX {
            FileVerdict::Refused(ScanError::Metadata(MetadataError::InodeOutOfRange))
        } else if device > i64::MAX {
            FileVerdict::Refused(ScanError::Metadata(MetadataError::DeviceOutOfRange))
        } else {
            FileVerdict::Seen(
                ScannedFileView {
                    library_id: target.id,
                    relative_path: canonical_form(relative),
                    size_bytes: size as i64,
                    mtime_ns: mtime_nanos(mtime_seconds, mtime_nanos_part),
                    inode: Some(inode as i64),
                    device: Some(device as i64),
                    scan_id: scan_session_id,
                },
            )
        },
    }
}

impl ScanWalkView {
    /// The walk after the file `seen` was noted.
    pub open spec fn with_file(self, seen: ScannedFileView) -> ScanWalkView {
        ScanWalkView {
            counters: ScanCountersView {
                files_seen: bumped(self.counters.files_seen),
                bytes_seen: tally_sum(self.counters.bytes_seen, seen.size_bytes),
                ..self.counters
            },
            batch: self.batch.push(seen),
            ..self
        }
    }

    /// What the walk asks for after it noted a file.
    pub open spec fn action(self, batch_size: usize) -> EntryAction {
        EntryAction {
            refresh_lease: self.counters.files_seen % 256 == 0,
            flush_batch: self.batch.len() >= batch_size,
        }
    }
}

impl ScanWalk {
    /// A walk that has the root of the library to list and has seen nothing
    /// yet.
    pub fn begin(target: &LibraryTarget) -> (walk: ScanWalk)
        ensures
            walk@.pending == seq![target.root_path_real@],
            walk@.batch == Seq::<ScannedFileView>::empty(),
            walk@.counters == no_tallies(),
    {
        let mut pending: Vec<String> = Vec::new();
        pending.push(target.root_path_real.clone());
        let walk = ScanWalk { counters: ScanCounters::new(), pending, batch: Vec::new() };
        assert(walk@.pending =~= seq![target.root_path_real@]);
        assert(walk@.batch =~= Seq::<ScannedFileView>::empty());
        walk
    }

    /// Takes the directory that is listed next and counts it; none where
    /// the walk is over.
    pub fn enter_next_directory(&mut self) -> (directory: Option<String>)
        ensures
            match directory {
                Some(path) => {
                    &&& old(self)@.pending.len() > 0
                    &&& path@ == old(self)@.pending.last()
                    &&& final(self)@ == (ScanWalkView {
                        pending: old(self)@.pending.drop_last(),
                        counters: ScanCountersView {
                            directories_seen: bumped(old(self)@.counters.directories_seen),
                            ..old(self)@.counters
                        },
                        ..old(self)@
                    })
                },
                None => old(self)@.pending.len() == 0 && final(self)@ == old(self)@,
            },
    {
        let ghost before = texts(self.pending@);
        match self.pending.pop() {
            Some(path) => {
                self.counters.directories_seen = bump(self.counters.directories_seen);
                assert(texts(self.pending@) =~= before.drop_last());
                assert(before.last() == path@);
                Some(path)
            },
            None => {
                assert(texts(self.pending@) =~= before);
                None
            },
        }
    }

    /// Notes that the directory at `directory` could not be listed.
    pub fn directory_unreadable(&mut self, directory: &str, message: &str)
        ensures
            final(self)@ == (ScanWalkView {
                counters: old(self)@.counters.with_error(directory@, message@),
                ..old(self)@
            }),
    {
        self.counters.record_error(directory, message);
    }

    /// Takes one entry of a directory into the walk. An entry that failed
    /// to be read, to be looked at or to be resolved counts as an error. A
    /// symbolic link is passed over, and so is whatever resolves to a place
    /// outside the library root or is neither directory nor regular file. A
    /// directory is put up for listing. A regular file is noted as seen: it is
    /// counted, its size is added, and it joins the batch.
    pub fn visit(
        &mut self,
        target: &LibraryTarget,
        scan_session_id: i64,
        batch_size: usize,
        entry: &EntryObservation,
    ) -> (result: Result<EntryAction, ScanError>)
        ensures
            ({
                let before = old(self)@;
                let after = final(self)@;
                match *entry {
                    EntryObservation::ListingFailed { directory, message } => after == (ScanWalkView {
                        counters: before.counters.with_error(directory@, message@),
                        ..before
                    }) && result == Ok::<EntryAction, ScanError>(no_action()),
                    EntryObservation::StatFailed { path, message } => after == (ScanWalkView {
                        counters: before.counters.with_error(path@, message@),
                        ..before
                    }) && result == Ok::<EntryAction, ScanError>(no_action()),
                    EntryObservation::ResolveFailed { path, message } => after == (ScanWalkView {
                        counters: before.counters.with_error(path@, message@),
                        ..before
                    }) && result == Ok::<EntryAction, ScanError>(no_action()),
                    EntryObservation::Symlink => after == before && result == Ok::<
                        EntryAction,
                        ScanError,
                    >(no_action()),
                    EntryObservation::Resolved {
                        resolved,
                        kind,
                        size,
                        mtime_seconds,
                        mtime_nanos,
                        inode,
                        device,
                    } => if !path_has_prefix(resolved@, target.root_path_real@) {
                        after == before && result == Ok::<EntryAction, ScanError>(
                            no_action(),
                        )
                    } else {
                        match kind {
                            EntryKind::Directory => after == (ScanWalkView {
                                pending: before.pending.push(resolved@),
                                ..before
                            }) && result == Ok::<EntryAction, ScanError>(no_action()),
                            EntryKind::Other => after == before && result == Ok::<
                                EntryAction,
                                ScanError,
                            >(no_action()),
                            EntryKind::File => match file_verdict(
                                *target,
                                scan_session_id,
                                resolved@,
                                size,
                                mtime_seconds,
                                mtime_nanos,
                                inode,
                                device,
                            ) {
                                FileVerdict::Seen(seen) => after == before.with_file(seen)
                                    && result == Ok::<EntryAction, ScanError>(
                                    after.action(batch_size),
                                ),
                                FileVerdict::Refused(fault) => after == before && result == Err::<
                                    EntryAction,
                                    ScanError,
                                >(fault),
                            },
                        }
                    },
                }
            }),
    {
        let mut noted = false;
        match entry {
            EntryObservation::ListingFailed { directory, message } => {
                self.counters.record_error(directory.as_str(), message.as_str());
            },
            EntryObservation::StatFailed { path, message } => {
                self.counters.record_error(path.as_str(), message.as_str());
            },
            EntryObservation::ResolveFailed { path, message } => {
                self.counters.record_error(path.as_str(), message.as_str());
            },
            EntryObservation::Symlink => {},
            EntryObservation::Resolved {
                resolved,
                kind,
                size,
                mtime_seconds,
                mtime_nanos,
                inode,
                device,
            } => {
                if path_starts_with(resolved.as_str(), target.root_path_real.as_str()) {
                    match kind {
                        EntryKind::Directory => {
                            let ghost listed = self.pending@;
                            let path = resolved.clone();
                            self.pending.push(path);
                            assert(texts(self.pending@) =~= texts(listed).push(resolved@));
                        },
                        EntryKind::Other => {},
                        EntryKind::File => {
                            let relative = strip_base(
                                resolved.as_str(),
                                target.root_path_real.as_str(),
                            );
                            let relative_path = match to_posix_relative_path(relative.as_str()) {
                                Ok(path) => path,
                                Err(fault) => {
                                    return Err(ScanError::Path(fault));
                                },
                            };
                            let stat = match metadata_to_row(
                                *size,
                                *mtime_seconds,
                                *mtime_nanos,
                                *inode,
                                *device,
                            ) {
                                Ok(stat) => stat,
                                Err(fault) => {
                                    return Err(ScanError::Metadata(fault));
                                },
                            };
                            let seen = ScannedFile {
                                library_id: target.id,
                                relative_path,
                                size_bytes: stat.size_bytes,
                                mtime_ns: stat.mtime_ns,
                                inode: stat.inode,
                                device: stat.device,
                                scan_id: scan_session_id,
                            };
                            let ghost listed = self.batch@;
                            self.counters.files_seen = bump(self.counters.files_seen);
                            self.counters.bytes_seen = add_tallies(
                                self.counters.bytes_seen,
                                stat.size_bytes,
                            );
                            self.batch.push(seen);
                            noted = true;
                            assert(scanned_views(self.batch@) =~= scanned_views(listed).push(seen@));
                        },
                    }
                }
            },
        }
        if noted {
            Ok(
                EntryAction {
                    refresh_lease: self.counters.files_seen % 256 == 0,
                    flush_batch: self.batch.len() >= batch_size,
                },
            )
        } else {
            Ok(EntryAction { refresh_lease: false, flush_batch: false })
        }
    }

    /// Hands out the batch to be written and counts the write; the walk
    /// goes on with an empty batch. An empty batch is not counted.
    pub fn take_batch(&mut self) -> (batch: Vec<ScannedFile>)
        ensures
            scanned_views(batch@) == old(self)@.batch,
            final(self)@ == (ScanWalkView {
                batch: Seq::<ScannedFileView>::empty(),
                counters: ScanCountersView {
                    batch_writes: if old(self)@.batch.len() > 0 {
                        bumped(old(self)@.counters.batch_writes)
                    } else {
                        old(self)@.counters.batch_writes
                    },
                    ..old(self)@.counters
                },
                ..old(self)@
            }),
    {
        let mut batch: Vec<ScannedFile> = Vec::new();
        std::mem::swap(&mut batch, &mut self.batch);
        if batch.len() > 0 {
            self.counters.batch_writes = bump(self.counters.batch_writes);
        }
        assert(scanned_views(self.batch@) =~= Seq::<ScannedFileView>::empty());
        batch
    }
}

} // verus!
