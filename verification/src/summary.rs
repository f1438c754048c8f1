//! The figures of the report on a batch: how the successful records are
//! spread over the kinds of file, and which of them hold the most text.

use vstd::prelude::*;
use crate::text::{ascii_lowercase, chars_of, chars_are, chars_ascii_lowercase};
use crate::numbers::{parse_u32, parse_u32_chars};
use crate::batch::{OcrResult, Record, records_of};
use crate::report::byte_length;

verus! {

// ---------------------------------------------------------------------------
// The resolution given on the command line
// ---------------------------------------------------------------------------

/// The resolution that is used where none is given that can be read.
pub const DEFAULT_DPI: u32 = 300;

/// The resolution of a screen: 96 dots per inch on Windows, 72 elsewhere.
pub open spec fn screen_resolution(windows: bool) -> u32 {
    if windows {
        96
    } else {
        72
    }
}

/// The resolution of a screen.
pub fn screen_dpi(windows: bool) -> (dpi: u32)
    ensures
        dpi == screen_resolution(windows),
{
    if windows {
        96
    } else {
        72
    }
}

/// What an argument asks for as resolution.
#[derive(Debug, Clone, Copy, PartialEq, Eq, Structural)]
pub enum DpiRequest {
    /// The resolution of the screen.
    Screen,
    /// The given number of dots per inch.
    Number(u32),
    /// Nothing that can be read.
    Unreadable,
}

/// What `argument` asks for: the resolution of the screen for the word
/// `screen`, in whatever case, else the number it writes, if any.
pub open spec fn dpi_request(argument: Seq<char>) -> DpiRequest {
    if ascii_lowercase(argument) == "screen"@ {
        DpiRequest::Screen
    } else {
        match parse_u32(argument) {
            Some(dpi) => DpiRequest::Number(dpi),
            None => DpiRequest::Unreadable,
        }
    }
}

/// The resolution that `argument` asks for: that of the screen, the number
/// it writes, or the default where it cannot be read.
pub open spec fn requested_dpi(argument: Seq<char>, screen: u32) -> u32 {
    match dpi_request(argument) {
        DpiRequest::Screen => screen,
        DpiRequest::Number(dpi) => dpi,
        DpiRequest::Unreadable => DEFAULT_DPI,
    }
}

/// What `argument` asks for as resolution.
pub fn read_dpi_request(argument: &str) -> (request: DpiRequest)
    ensures
        request == dpi_request(argument@),
{
    let chars = chars_of(argument);
    if chars_are(&chars_ascii_lowercase(&chars), "screen") {
        DpiRequest::Screen
    } else {
        match parse_u32_chars(&chars) {
            Some(dpi) => DpiRequest::Number(dpi),
            None => DpiRequest::Unreadable,
        }
    }
}

/// The resolution that `argument` asks for, where `screen` is the
/// resolution of the screen.
pub fn parse_dpi(argument: &str, screen: u32) -> (dpi: u32)
    ensures
        dpi == requested_dpi(argument@, screen),
{
    match read_dpi_request(argument) {
        DpiRequest::Screen => screen,
        DpiRequest::Number(dpi) => dpi,
        DpiRequest::Unreadable => DEFAULT_DPI,
    }
}

// ---------------------------------------------------------------------------
// The spread over the kinds of file
// ---------------------------------------------------------------------------

/// The kinds of the successful records, each once, in the order in which
/// they first occur.
pub open spec fn kinds_seen(records: Seq<Record>) -> Seq<Seq<char>>
    decreases records.len(),
{
    if records.len() == 0 {
        Seq::<Seq<char>>::empty()
    } else {
        let head = kinds_seen(records.drop_last());
        if records.last().error is None && !head.contains(records.last().file_type) {
            head.push(records.last().file_type)
        } else {
            head
        }
    }
}

/// The number of successful records of the kind `kind`.
pub open spec fn kind_files(records: Seq<Record>, kind: Seq<char>) -> nat
    decreases records.len(),
{
    if records.len() == 0 {
        0
    } else {
        kind_files(records.drop_last(), kind) + if records.last().error is None
            && records.last().file_type == kind {
            1nat
        } else {
            0nat
        }
    }
}

/// The number of characters of the texts of the successful records of the
/// kind `kind`.
pub open spec fn kind_characters(records: Seq<Record>, kind: Seq<char>) -> nat
    decreases records.len(),
{
    if records.len() == 0 {
        0
    } else {
        kind_characters(records.drop_last(), kind) + if records.last().error is None
            && records.last().file_type == kind {
            records.last().text.len()
        } else {
            0nat
        }
    }
}

/// The figures of one kind of file.
#[derive(Debug, Clone)]
pub struct KindStats {
    /// The label of the kind.
    pub kind: String,
    /// The number of successful records of the kind.
    pub files: usize,
    /// The number of characters of their texts.
    pub characters: u128,
}

impl KindStats {
    /// Whether these are the figures of the kind `kind` among `records`.
    pub open spec fn describes(&self, records: Seq<Record>, kind: Seq<char>) -> bool {
        &&& self.kind@ == kind
        &&& self.files == kind_files(records, kind)
        &&& self.characters == kind_characters(records, kind)
    }

    /// The average number of characters of a text of the kind.
    pub fn average_characters(&self) -> (average: u128)
        ensures
            self.files > 0 ==> average == self.characters as nat / self.files as nat,
            self.files == 0 ==> average == self.characters,
    {
        if self.files == 0 {
            self.characters
        } else {
            self.characters / (self.files as u128)
        }
    }
}

/// Whether `stats` are the figures of `records`, kind by kind, in the order
/// in which the kinds first occur.
pub open spec fn is_distribution(stats: Seq<KindStats>, records: Seq<Record>) -> bool {
    &&& stats.len() == kinds_seen(records).len()
    &&& forall|j: int|
        0 <= j < stats.len() ==> (#[trigger] stats[j]).describes(records, kinds_seen(records)[j])
}

/// No kind is listed twice.
pub proof fn lemma_kinds_seen_distinct(records: Seq<Record>)
    ensures
        forall|a: int, b: int|
            0 <= a < b < kinds_seen(records).len() ==> kinds_seen(records)[a] != kinds_seen(
                records,
            )[b],
    decreases records.len(),
{
    if records.len() > 0 {
        lemma_kinds_seen_distinct(records.drop_last());
        let head = kinds_seen(records.drop_last());
        let all = kinds_seen(records);
        assert forall|a: int, b: int| 0 <= a < b < all.len() implies all[a] != all[b] by {
            if b < head.len() {
                assert(all[a] == head[a] && all[b] == head[b]);
            } else {
                assert(all[a] == head[a]);
                assert(head.contains(head[a]));
            }
        }
    }
}

/// A kind that is not listed has no successful record.
pub proof fn lemma_unseen_kind(records: Seq<Record>, kind: Seq<char>)
    requires
        !kinds_seen(records).contains(kind),
    ensures
        kind_files(records, kind) == 0,
        kind_characters(records, kind) == 0,
    decreases records.len(),
{
    if records.len() > 0 {
        let head = kinds_seen(records.drop_last());
        let all = kinds_seen(records);
        if head.contains(kind) {
            let j = choose|j: int| 0 <= j < head.len() && head[j] == kind;
            assert(all[j] == kind);
        }
        lemma_unseen_kind(records.drop_last(), kind);
        if records.last().error is None && records.last().file_type == kind {
            if head.contains(kind) {
            } else {
                assert(all[all.len() - 1] == kind);
            }
        }
    }
}

/// A kind has no more successful records than there are records.
pub proof fn lemma_kind_bounds(records: Seq<Record>, kind: Seq<char>)
    ensures
        kind_files(records, kind) <= records.len(),
    decreases records.len(),
{
    if records.len() > 0 {
        lemma_kind_bounds(records.drop_last(), kind);
    }
}

/// The figures of the successful records, kind by kind, in the order in
/// which the kinds first occur.
pub fn kind_distribution(results: &Vec<OcrResult>) -> (stats: Vec<KindStats>)
    ensures
        is_distribution(stats@, records_of(results@)),
{
    let ghost records = records_of(results@);
    let mut stats: Vec<KindStats> = Vec::new();
    let mut i: usize = 0;
    while i < results.len()
        invariant
            i <= results.len(),
            records == records_of(results@),
            is_distribution(stats@, records.take(i as int)),
            forall|j: int|
                0 <= j < stats.len() ==> (#[trigger] stats[j]).characters <= i
                    * 0xFFFF_FFFF_FFFF_FFFF,
        decreases results.len() - i,
    {
        let ghost before = records.take(i as int);
        let ghost next = records.take(i + 1);
        let ghost old_stats = stats@;
        proof {
            assert(next.drop_last() =~= before);
            assert(next.last() == results@[i as int]@);
            lemma_kinds_seen_distinct(before);
        }
        let result = &results[i];
        if result.error.is_none() {
            let n: usize = result.text.as_str().unicode_len();
            let mut j: usize = 0;
            let mut found: bool = false;
            while j < stats.len() && !found
                invariant
                    j <= stats.len(),
                    stats@ == old_stats,
                    is_distribution(stats@, before),
                    !found ==> forall|k: int|
                        0 <= k < j ==> kinds_seen(before)[k] != result.file_type@,
                    found ==> j < stats.len() && kinds_seen(before)[j as int]
                        == result.file_type@,
                decreases stats.len() - j + if found {
                    0int
                } else {
                    1int
                },
            {
                if stats[j].kind == result.file_type {
                    found = true;
                } else {
                    j += 1;
                }
            }
            if found {
                proof {
                    lemma_kind_bounds(before, result.file_type@);
                    assert(kinds_seen(before).contains(result.file_type@));
                    assert(kinds_seen(next) == kinds_seen(before));
                }
                let entry = &stats[j];
                let updated = KindStats {
                    kind: entry.kind.clone(),
                    files: entry.files + 1,
                    characters: entry.characters + n as u128,
                };
                stats.set(j, updated);
                proof {
                    assert forall|k: int| 0 <= k < stats.len() implies (#[trigger] stats[k])
                        .describes(next, kinds_seen(next)[k]) by {
                        if k != j {
                            assert(stats[k] == old_stats[k]);
                            assert(old_stats[k].describes(before, kinds_seen(before)[k]));
                            assert(kinds_seen(before)[k] != result.file_type@);
                        } else {
                            assert(old_stats[k].describes(before, kinds_seen(before)[k]));
                        }
                    }
                }
            } else {
                proof {
                    assert(!kinds_seen(before).contains(result.file_type@));
                    lemma_unseen_kind(before, result.file_type@);
                    assert(kinds_seen(next) == kinds_seen(before).push(result.file_type@));
                }
                stats.push(KindStats { kind: result.file_type.clone(), files: 1, characters: n as u128 });
                proof {
                    assert forall|k: int| 0 <= k < stats.len() implies (#[trigger] stats[k])
                        .describes(next, kinds_seen(next)[k]) by {
                        if k < old_stats.len() {
                            assert(stats[k] == old_stats[k]);
                            assert(old_stats[k].describes(before, kinds_seen(before)[k]));
                            assert(kinds_seen(before).contains(kinds_seen(before)[k]));
                        }
                    }
                }
            }
        } else {
            proof {
                assert(kinds_seen(next) == kinds_seen(before));
                assert forall|k: int| 0 <= k < stats.len() implies (#[trigger] stats[k]).describes(
                    next,
                    kinds_seen(next)[k],
                ) by {
                    assert(old_stats[k].describes(before, kinds_seen(before)[k]));
                }
            }
        }
        i += 1;
    }
    assert(records.take(results.len() as int) =~= records);
    stats
}

// ---------------------------------------------------------------------------
// The records with the most text
// ---------------------------------------------------------------------------

/// Whether record `a` comes before record `b` in the order of text size:
/// its text takes more bytes, or as many and it stands earlier.
pub open spec fn ranks_before(records: Seq<Record>, a: int, b: int) -> bool {
    byte_length(records[a].text) > byte_length(records[b].text) || (byte_length(records[a].text)
        == byte_length(records[b].text) && a < b)
}

/// Whether `picks` are the indices of the first `limit` successful records
/// in the order of text size, or of all of them where they are fewer.
pub open spec fn is_top_selection(records: Seq<Record>, picks: Seq<usize>, limit: nat) -> bool {
    &&& picks.len() <= limit
    &&& forall|t: int|
        0 <= t < picks.len() ==> (#[trigger] picks[t]) < records.len()
            && records[picks[t] as int].error is None
    &&& forall|t: int|
        0 <= t < picks.len() - 1 ==> ranks_before(
            records,
            #[trigger] picks[t] as int,
            picks[t + 1] as int,
        )
    &&& forall|j: int|
        0 <= j < records.len() && (#[trigger] records[j]).error is None ==> picks.contains(
            j as usize,
        ) || (picks.len() == limit && (limit == 0 || ranks_before(records, picks.last() as int, j)))
}

/// The lengths in bytes of the texts of `results`.
fn text_sizes(results: &Vec<OcrResult>) -> (sizes: Vec<usize>)
    ensures
        sizes@.len() == results@.len(),
        forall|j: int|
            0 <= j < sizes@.len() ==> #[trigger] sizes@[j] == byte_length(results@[j]@.text),
{
    let mut sizes: Vec<usize> = Vec::new();
    let mut i: usize = 0;
    while i < results.len()
        invariant
            i <= results.len(),
            sizes@.len() == i,
            forall|j: int| 0 <= j < i ==> #[trigger] sizes@[j] == byte_length(results@[j]@.text),
        decreases results.len() - i,
    {
        sizes.push(results[i].text.as_str().as_bytes().len());
        i += 1;
    }
    sizes
}

/// The indices of the `limit` successful records with the largest texts,
/// the largest first; of two texts of one size the earlier record comes
/// first.
pub fn top_by_text_size(results: &Vec<OcrResult>, limit: usize) -> (picks: Vec<usize>)
    ensures
        is_top_selection(records_of(results@), picks@, limit as nat),
{
    let ghost records = records_of(results@);
    let sizes = text_sizes(results);
    let n = results.len();
    let mut picks: Vec<usize> = Vec::new();
    let mut exhausted: bool = false;
    while picks.len() < limit && !exhausted
        invariant
            n == results.len(),
            records == records_of(results@),
            sizes@.len() == n,
            forall|j: int| 0 <= j < n ==> #[trigger] sizes@[j] == byte_length(records[j].text),
            picks@.len() <= limit,
            forall|t: int|
                0 <= t < picks@.len() ==> (#[trigger] picks@[t]) < n
                    && records[picks@[t] as int].error is None,
            forall|t: int|
                0 <= t < picks@.len() - 1 ==> ranks_before(
                    records,
                    #[trigger] picks@[t] as int,
                    picks@[t + 1] as int,
                ),
            forall|j: int|
                0 <= j < n && (#[trigger] records[j]).error is None ==> picks@.contains(
                    j as usize,
                ) || (!exhausted && (picks@.len() == 0 || ranks_before(
                    records,
                    picks@.last() as int,
                    j,
                ))),
        decreases limit - picks.len() + if exhausted {
            0int
        } else {
            1int
        },
    {
        let ghost old_picks = picks@;
        let mut best: Option<usize> = None;
        let mut j: usize = 0;
        while j < n
            invariant
                j <= n,
                n == results.len(),
                records == records_of(results@),
                sizes@.len() == n,
                picks@ == old_picks,
                forall|k: int| 0 <= k < n ==> #[trigger] sizes@[k] == byte_length(records[k].text),
                forall|t: int| 0 <= t < picks@.len() ==> (#[trigger] picks@[t]) < n,
                best matches Some(m) ==> m < j && records[m as int].error is None && (picks@.len()
                    == 0 || ranks_before(records, picks@.last() as int, m as int)),
                forall|k: int|
                    0 <= k < j && (#[trigger] records[k]).error is None && (picks@.len() == 0
                        || ranks_before(records, picks@.last() as int, k)) ==> best is Some && (k
                        == best->0 || ranks_before(records, best->0 as int, k)),
            decreases n - j,
        {
            let candidate = results[j].error.is_none() && (picks.len() == 0 || {
                let last = picks[picks.len() - 1];
                sizes[last] > sizes[j] || (sizes[last] == sizes[j] && last < j)
            });
            proof {
                assert(records[j as int] == results@[j as int]@);
                assert(candidate == (records[j as int].error is None && (picks@.len() == 0
                    || ranks_before(records, picks@.last() as int, j as int))));
            }
            if candidate {
                match best {
                    None => {
                        best = Some(j);
                    },
                    Some(m) => {
                        if sizes[j] > sizes[m] {
                            best = Some(j);
                        }
                    },
                }
            }
            j += 1;
        }
        match best {
            Some(m) => {
                picks.push(m);
                proof {
                    assert(picks@.last() == m);
                    assert forall|t: int| 0 <= t < picks@.len() - 1 implies ranks_before(
                        records,
                        #[trigger] picks@[t] as int,
                        picks@[t + 1] as int,
                    ) by {
                        if t < old_picks.len() - 1 {
                            assert(picks@[t] == old_picks[t]);
                            assert(picks@[t + 1] == old_picks[t + 1]);
                        } else {
                            assert(picks@[t] == old_picks.last());
                        }
                    }
                    assert forall|k: int|
                        0 <= k < n && (#[trigger] records[k]).error is None implies picks@.contains(
                        k as usize,
                    ) || ranks_before(records, picks@.last() as int, k) by {
                        if old_picks.contains(k as usize) {
                            let t = choose|t: int| 0 <= t < old_picks.len() && old_picks[t] == k;
                            assert(picks@[t] == k);
                        } else if k == m {
                            assert(picks@[picks@.len() - 1] == k);
                        }
                    }
                }
            },
            None => {
                exhausted = true;
            },
        }
    }
    picks
}

/// The number of records in the list of the largest texts.
pub const TOP_FILES: usize = 5;

} // verus!
