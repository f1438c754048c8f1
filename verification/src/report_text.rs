//! The report on a batch, as text.
//!
//! The two shares of the report, of the successful and of the failed
//! records, are shown in percent with one decimal place; the caller works
//! them out and hands them in as they are to be shown.

use vstd::prelude::*;
use crate::text::{string_of, append_str};
use crate::numbers::{decimal, push_decimal};
use crate::batch::{OcrResult, Record, records_of, failed_count, pairs_of};
use crate::report::{total_pages, total_characters, failures_of, count_results, failures};
use crate::summary::{kinds_seen, kind_files, kind_characters, is_distribution, kind_distribution,
    is_top_selection, top_by_text_size, TOP_FILES};

verus! {

/// The head of the report: the counts of the batch.
pub open spec fn overall_text(
    records: Seq<Record>,
    successful_share: Seq<char>,
    failed_share: Seq<char>,
) -> Seq<char> {
    "=== OCR Processing Report ===\n\nOverall Statistics:\n  - Files processed: "@ + decimal(
        records.len(),
    ) + "\n  - Successful: "@ + decimal((records.len() - failed_count(records)) as nat) + " ("@
        + successful_share + "%)\n  - Failed: "@ + decimal(failed_count(records)) + " ("@
        + failed_share + "%)\n  - Total pages: "@ + decimal(total_pages(records))
        + "\n  - Total text characters: "@ + decimal(total_characters(records)) + "\n\n"@
}

/// The average number of characters of a text of the kind `kind`.
pub open spec fn kind_average(records: Seq<Record>, kind: Seq<char>) -> nat {
    if kind_files(records, kind) == 0 {
        kind_characters(records, kind)
    } else {
        kind_characters(records, kind) / kind_files(records, kind)
    }
}

/// The line of one kind of file.
pub open spec fn kind_line(records: Seq<Record>, kind: Seq<char>) -> Seq<char> {
    "  - "@ + kind + ": "@ + decimal(kind_files(records, kind)) + " files, avg "@ + decimal(
        kind_average(records, kind),
    ) + " chars/file\n"@
}

/// The lines of the kinds `kinds`.
pub open spec fn kind_lines(records: Seq<Record>, kinds: Seq<Seq<char>>) -> Seq<char>
    decreases kinds.len(),
{
    if kinds.len() == 0 {
        Seq::<char>::empty()
    } else {
        kind_lines(records, kinds.drop_last()) + kind_line(records, kinds.last())
    }
}

/// The part of the report on the kinds of file: a line for each kind that
/// has a successful record, in the order in which the kinds first occur.
pub open spec fn distribution_text(records: Seq<Record>) -> Seq<char> {
    "Distribution by file type (successful only):\n"@ + kind_lines(records, kinds_seen(records))
        + "\n"@
}

/// The line of one failure.
pub open spec fn failure_line(failure: (Seq<char>, Seq<char>)) -> Seq<char> {
    "  - "@ + failure.0 + ": "@ + failure.1 + "\n"@
}

/// The lines of the failures `list`.
pub open spec fn failure_lines(list: Seq<(Seq<char>, Seq<char>)>) -> Seq<char>
    decreases list.len(),
{
    if list.len() == 0 {
        Seq::<char>::empty()
    } else {
        failure_lines(list.drop_last()) + failure_line(list.last())
    }
}

/// The part of the report on the failures; nothing where there is none.
pub open spec fn failures_text(records: Seq<Record>) -> Seq<char> {
    if failures_of(records).len() == 0 {
        Seq::<char>::empty()
    } else {
        "Failed files:\n"@ + failure_lines(failures_of(records)) + "\n"@
    }
}

/// The line of the record with index `index` at the place `rank` of the
/// list of the largest texts.
pub open spec fn top_line(records: Seq<Record>, rank: nat, index: int) -> Seq<char> {
    "  "@ + decimal(rank) + ". "@ + records[index].filename + ": "@ + decimal(
        records[index].text.len(),
    ) + " characters, "@ + decimal(records[index].page_count) + " pages\n"@
}

/// The lines of the records `picks`, numbered from one.
pub open spec fn top_lines(records: Seq<Record>, picks: Seq<usize>) -> Seq<char>
    decreases picks.len(),
{
    if picks.len() == 0 {
        Seq::<char>::empty()
    } else {
        top_lines(records, picks.drop_last()) + top_line(records, picks.len(), picks.last() as int)
    }
}

/// The part of the report on the largest texts; nothing where no record is
/// successful.
pub open spec fn top_text(records: Seq<Record>, picks: Seq<usize>) -> Seq<char> {
    if picks.len() == 0 {
        Seq::<char>::empty()
    } else {
        "Top 5 files by text size:\n"@ + top_lines(records, picks)
    }
}

/// The report on `records`, where `picks` are the records with the largest
/// texts.
pub open spec fn report_text(
    records: Seq<Record>,
    picks: Seq<usize>,
    successful_share: Seq<char>,
    failed_share: Seq<char>,
) -> Seq<char> {
    overall_text(records, successful_share, failed_share) + distribution_text(records)
        + failures_text(records) + top_text(records, picks)
}

fn append_overall(
    out: &mut Vec<char>,
    results: &Vec<OcrResult>,
    successful_share: &str,
    failed_share: &str,
)
    ensures
        final(out)@ == old(out)@ + overall_text(
            records_of(results@),
            successful_share@,
            failed_share@,
        ),
{
    let counts = count_results(results);
    append_str(out, "=== OCR Processing Report ===\n\nOverall Statistics:\n  - Files processed: ");
    push_decimal(out, counts.files as u128);
    append_str(out, "\n  - Successful: ");
    push_decimal(out, counts.successful as u128);
    append_str(out, " (");
    append_str(out, successful_share);
    append_str(out, "%)\n  - Failed: ");
    push_decimal(out, counts.failed as u128);
    append_str(out, " (");
    append_str(out, failed_share);
    append_str(out, "%)\n  - Total pages: ");
    push_decimal(out, counts.pages);
    append_str(out, "\n  - Total text characters: ");
    push_decimal(out, counts.characters);
    append_str(out, "\n\n");
    assert(out@ =~= old(out)@ + overall_text(
        records_of(results@),
        successful_share@,
        failed_share@,
    ));
}

fn append_distribution(out: &mut Vec<char>, results: &Vec<OcrResult>)
    ensures
        final(out)@ == old(out)@ + distribution_text(records_of(results@)),
{
    let ghost records = records_of(results@);
    let ghost kinds = kinds_seen(records);
    let stats = kind_distribution(results);
    append_str(out, "Distribution by file type (successful only):\n");
    let ghost start = out@;
    let mut j: usize = 0;
    assert(start + kind_lines(records, kinds.take(0)) =~= start);
    while j < stats.len()
        invariant
            j <= stats.len(),
            records == records_of(results@),
            kinds == kinds_seen(records),
            is_distribution(stats@, records),
            out@ == start + kind_lines(records, kinds.take(j as int)),
        decreases stats.len() - j,
    {
        proof {
            let next = kinds.take(j + 1);
            assert(next.drop_last() =~= kinds.take(j as int));
            assert(next.last() == kinds[j as int]);
            assert(stats@[j as int].describes(records, kinds[j as int]));
        }
        let ghost before = out@;
        let entry = &stats[j];
        append_str(out, "  - ");
        append_str(out, entry.kind.as_str());
        append_str(out, ": ");
        push_decimal(out, entry.files as u128);
        append_str(out, " files, avg ");
        push_decimal(out, entry.average_characters());
        append_str(out, " chars/file\n");
        assert(out@ =~= before + kind_line(records, kinds[j as int]));
        j += 1;
    }
    assert(kinds.take(stats.len() as int) =~= kinds);
    append_str(out, "\n");
    assert(out@ =~= old(out)@ + distribution_text(records));
}

fn append_failures(out: &mut Vec<char>, results: &Vec<OcrResult>)
    ensures
        final(out)@ == old(out)@ + failures_text(records_of(results@)),
{
    let ghost records = records_of(results@);
    let list = failures(results);
    let ghost lines = pairs_of(list@);
    if list.len() == 0 {
        assert(out@ =~= old(out)@ + failures_text(records));
        return ;
    }
    append_str(out, "Failed files:\n");
    let ghost start = out@;
    let mut j: usize = 0;
    assert(start + failure_lines(lines.take(0)) =~= start);
    while j < list.len()
        invariant
            j <= list.len(),
            lines == pairs_of(list@),
            out@ == start + failure_lines(lines.take(j as int)),
        decreases list.len() - j,
    {
        proof {
            let next = lines.take(j + 1);
            assert(next.drop_last() =~= lines.take(j as int));
            assert(next.last() == (list@[j as int].0@, list@[j as int].1@));
        }
        let ghost before = out@;
        let entry = &list[j];
        append_str(out, "  - ");
        append_str(out, entry.0.as_str());
        append_str(out, ": ");
        append_str(out, entry.1.as_str());
        append_str(out, "\n");
        assert(out@ =~= before + failure_line((entry.0@, entry.1@)));
        j += 1;
    }
    assert(lines.take(list.len() as int) =~= lines);
    append_str(out, "\n");
    assert(out@ =~= old(out)@ + failures_text(records));
}

fn append_top(out: &mut Vec<char>, results: &Vec<OcrResult>, picks: &Vec<usize>)
    requires
        forall|t: int| 0 <= t < picks@.len() ==> (#[trigger] picks@[t]) < results@.len(),
    ensures
        final(out)@ == old(out)@ + top_text(records_of(results@), picks@),
{
    let ghost records = records_of(results@);
    if picks.len() == 0 {
        assert(out@ =~= old(out)@ + top_text(records, picks@));
        return ;
    }
    append_str(out, "Top 5 files by text size:\n");
    let ghost start = out@;
    let mut t: usize = 0;
    assert(start + top_lines(records, picks@.take(0)) =~= start);
    while t < picks.len()
        invariant
            t <= picks.len(),
            records == records_of(results@),
            forall|k: int| 0 <= k < picks@.len() ==> (#[trigger] picks@[k]) < results@.len(),
            out@ == start + top_lines(records, picks@.take(t as int)),
        decreases picks.len() - t,
    {
        proof {
            let next = picks@.take(t + 1);
            assert(next.drop_last() =~= picks@.take(t as int));
            assert(next.last() == picks@[t as int]);
            assert(next.len() == t + 1);
        }
        let ghost before = out@;
        let index = picks[t];
        let result = &results[index];
        assert(records[index as int] == result@);
        append_str(out, "  ");
        push_decimal(out, t as u128 + 1);
        append_str(out, ". ");
        append_str(out, result.filename.as_str());
        append_str(out, ": ");
        push_decimal(out, result.text.as_str().unicode_len() as u128);
        append_str(out, " characters, ");
        push_decimal(out, result.page_count as u128);
        append_str(out, " pages\n");
        assert(out@ =~= before + top_line(records, (t + 1) as nat, index as int));
        t += 1;
    }
    assert(picks@.take(picks.len() as int) =~= picks@);
    assert(out@ =~= old(out)@ + top_text(records, picks@));
}

/// The report on the records of a batch: the counts, with the two shares
/// as they are handed in; a line for each kind of file; the failures, if
/// there are any; and the five successful records with the largest texts,
/// if any record is successful.
pub fn generate_report(results: &Vec<OcrResult>, successful_share: &str, failed_share: &str) -> (report:
    String)
    ensures
        exists|picks: Seq<usize>|
            is_top_selection(records_of(results@), picks, TOP_FILES as nat) && report@
                == #[trigger] report_text(
                records_of(results@),
                picks,
                successful_share@,
                failed_share@,
            ),
{
    let mut out: Vec<char> = Vec::new();
    append_overall(&mut out, results, successful_share, failed_share);
    append_distribution(&mut out, results);
    append_failures(&mut out, results);
    let picks = top_by_text_size(results, TOP_FILES);
    append_top(&mut out, results, &picks);
    assert(out@ =~= report_text(records_of(results@), picks@, successful_share@, failed_share@));
    string_of(&out)
}

} // verus!
