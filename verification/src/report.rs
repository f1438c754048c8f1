//! What is written down of a batch: the table of its records, the text
//! files, and the numbers of the report.
//!
//! Writing files is the caller's work; the library says what they hold.

use vstd::prelude::*;
use vstd::utf8::encode_utf8;
use crate::text::{chars_of, string_of, append_str, texts, push_text};
use crate::numbers::{decimal, push_decimal_text};
use crate::file_type::{file_stem, file_stem_of};
use crate::batch::{OcrResult, Record, records_of, failed_count};

verus! {

// ---------------------------------------------------------------------------
// The table of records
// ---------------------------------------------------------------------------

/// The number of bytes that `s` takes in UTF-8.
pub open spec fn byte_length(s: Seq<char>) -> nat {
    encode_utf8(s).len()
}

/// The names of the columns of the table.
pub open spec fn csv_header() -> Seq<Seq<char>> {
    seq![
        "filename"@,
        "file_type"@,
        "page_count"@,
        "text_length"@,
        "processing_time_ms"@,
        "error"@,
    ]
}

/// The row of a record: its file name, its kind, its page count, the
/// length of its text in bytes, the time it took, and its error or nothing.
pub open spec fn csv_fields(record: Record) -> Seq<Seq<char>> {
    seq![
        record.filename,
        record.file_type,
        decimal(record.page_count),
        decimal(byte_length(record.text)),
        decimal(record.processing_time_ms),
        match record.error {
            Some(e) => e,
            None => Seq::<char>::empty(),
        },
    ]
}

/// The names of the columns of the table.
pub fn header_row() -> (row: Vec<String>)
    ensures
        texts(row@) == csv_header(),
{
    let mut row: Vec<String> = Vec::new();
    assert(texts(row@) =~= Seq::<Seq<char>>::empty());
    push_text(&mut row, "filename");
    push_text(&mut row, "file_type");
    push_text(&mut row, "page_count");
    push_text(&mut row, "text_length");
    push_text(&mut row, "processing_time_ms");
    push_text(&mut row, "error");
    assert(texts(row@) =~= csv_header());
    row
}

/// The row of a record.
pub fn record_row(result: &OcrResult) -> (row: Vec<String>)
    ensures
        texts(row@) == csv_fields(result@),
{
    let mut row: Vec<String> = Vec::new();
    assert(texts(row@) =~= Seq::<Seq<char>>::empty());
    push_text(&mut row, result.filename.as_str());
    push_text(&mut row, result.file_type.as_str());
    push_decimal_text(&mut row, result.page_count as u128);
    push_decimal_text(&mut row, result.text.as_str().as_bytes().len() as u128);
    push_decimal_text(&mut row, result.processing_time_ms);
    match &result.error {
        Some(e) => {
            push_text(&mut row, e.as_str());
        },
        None => {
            push_text(&mut row, "");
            proof {
                reveal_strlit("");
                assert(""@ =~= Seq::<char>::empty());
            }
        },
    }
    assert(texts(row@) =~= csv_fields(result@));
    row
}

/// What `csv::Writer::write_record` writes for one record, with the
/// writer's settings left as they are: the bytes of one line of a CSV file.
pub uninterp spec fn csv_line(fields: Seq<Seq<char>>) -> Seq<u8>;

/// `csv::Writer::write_record`, on a writer that starts empty and writes
/// into memory: the bytes of the line for `fields`. They depend on the
/// fields alone.
#[verifier::external_body]
fn csv_write_record(fields: &Vec<String>) -> (line: Vec<u8>)
    ensures
        line@ == csv_line(texts(fields@)),
{
    let mut writer = csv::Writer::from_writer(Vec::new());
    let _ = writer.write_record(fields);
    writer.into_inner().unwrap_or_default()
}

/// The lines of the rows, one after the other.
pub open spec fn csv_lines(rows: Seq<Seq<Seq<char>>>) -> Seq<u8>
    decreases rows.len(),
{
    if rows.len() == 0 {
        Seq::<u8>::empty()
    } else {
        csv_lines(rows.drop_last()) + csv_line(rows.last())
    }
}

/// The rows of the table of `records`: the header, then one row for each
/// record.
pub open spec fn table_rows(records: Seq<Record>) -> Seq<Seq<Seq<char>>> {
    seq![csv_header()] + Seq::new(records.len(), |i: int| csv_fields(records[i]))
}

/// Appends the bytes of `tail` to `out`.
pub fn append_bytes(out: &mut Vec<u8>, tail: &Vec<u8>)
    ensures
        final(out)@ == old(out)@ + tail@,
{
    let mut i: usize = 0;
    while i < tail.len()
        invariant
            i <= tail.len(),
            out@ == old(out)@ + tail@.take(i as int),
        decreases tail.len() - i,
    {
        out.push(tail[i]);
        assert(tail@.take(i + 1) =~= tail@.take(i as int).push(tail@[i as int]));
        i += 1;
    }
    assert(tail@.take(tail.len() as int) =~= tail@);
}

/// The table of the records as a CSV file: a header line, then a line for
/// each record.
pub fn results_csv(results: &Vec<OcrResult>) -> (bytes: Vec<u8>)
    ensures
        bytes@ == csv_lines(table_rows(records_of(results@))),
{
    let ghost rows = table_rows(records_of(results@));
    let mut bytes: Vec<u8> = Vec::new();
    let header = header_row();
    append_bytes(&mut bytes, &csv_write_record(&header));
    proof {
        assert(rows.take(1) =~= seq![csv_header()]);
        assert(rows.take(1).drop_last() =~= Seq::<Seq<Seq<char>>>::empty());
        assert(rows.take(1).last() == csv_header());
        assert(csv_lines(rows.take(1).drop_last()) =~= Seq::<u8>::empty());
        assert(csv_lines(rows.take(1)) =~= csv_line(csv_header()));
    }
    let mut i: usize = 0;
    while i < results.len()
        invariant
            i <= results.len(),
            rows == table_rows(records_of(results@)),
            bytes@ == csv_lines(rows.take(i + 1)),
        decreases results.len() - i,
    {
        let row = record_row(&results[i]);
        proof {
            let next = rows.take(i + 2);
            assert(next.drop_last() =~= rows.take(i + 1));
            assert(next.last() == csv_fields(results@[i as int]@));
        }
        append_bytes(&mut bytes, &csv_write_record(&row));
        i += 1;
    }
    assert(rows.take(results.len() + 1) =~= rows);
    bytes
}

// ---------------------------------------------------------------------------
// Text files
// ---------------------------------------------------------------------------

/// Whether the text of a record is saved in a file of its own: it has no
/// error and its text is not empty.
pub open spec fn saves_text(record: Record) -> bool {
    record.error is None && record.text.len() > 0
}

/// The name of the text file of the file called `filename`: its stem with
/// `.txt` behind it.
pub open spec fn text_file_name(filename: Seq<char>) -> Seq<char> {
    (match file_stem(filename) {
        Some(stem) => stem,
        None => Seq::<char>::empty(),
    }) + ".txt"@
}

/// The text files of the records: for each record whose text is saved, the
/// name of its file and its text.
pub open spec fn text_files_of(records: Seq<Record>) -> Seq<(Seq<char>, Seq<char>)>
    decreases records.len(),
{
    if records.len() == 0 {
        Seq::empty()
    } else if saves_text(records.last()) {
        text_files_of(records.drop_last()).push(
            (text_file_name(records.last().filename), records.last().text),
        )
    } else {
        text_files_of(records.drop_last())
    }
}

/// The text files that are written for `results`.
pub fn text_files(results: &Vec<OcrResult>) -> (files: Vec<(String, String)>)
    ensures
        crate::batch::pairs_of(files@) == text_files_of(records_of(results@)),
{
    let mut files: Vec<(String, String)> = Vec::new();
    let ghost records = records_of(results@);
    let mut i: usize = 0;
    assert(crate::batch::pairs_of(files@) =~= text_files_of(records.take(0)));
    while i < results.len()
        invariant
            i <= results.len(),
            records == records_of(results@),
            crate::batch::pairs_of(files@) == text_files_of(records.take(i as int)),
        decreases results.len() - i,
    {
        proof {
            let next = records.take(i + 1);
            assert(next.drop_last() =~= records.take(i as int));
            assert(next.last() == results@[i as int]@);
        }
        let result = &results[i];
        if result.error.is_none() && result.text.as_str().unicode_len() > 0 {
            let mut name: Vec<char> = match file_stem_of(result.filename.as_str()) {
                Some(stem) => chars_of(stem.as_str()),
                None => Vec::new(),
            };
            append_str(&mut name, ".txt");
            let name = string_of(&name);
            let text = result.text.clone();
            proof {
                crate::batch::lemma_pairs_push(files@, name, text);
            }
            files.push((name, text));
        }
        i += 1;
    }
    assert(records.take(results.len() as int) =~= records);
    files
}

/// What is saved of a batch.
pub struct SavedResults {
    /// The table of the records, as a CSV file.
    pub table: Vec<u8>,
    /// The text files: the name and the content of each.
    pub texts: Vec<(String, String)>,
}

/// What is saved of `results`: the table of all records, and, if
/// `save_individual_files` says so, the text of each record that has one
/// in a file of its own.
pub fn save_results(results: &Vec<OcrResult>, save_individual_files: bool) -> (saved: SavedResults)
    ensures
        saved.table@ == csv_lines(table_rows(records_of(results@))),
        save_individual_files ==> crate::batch::pairs_of(saved.texts@) == text_files_of(
            records_of(results@),
        ),
        !save_individual_files ==> saved.texts@.len() == 0,
{
    let table = results_csv(results);
    let texts = if save_individual_files {
        text_files(results)
    } else {
        Vec::new()
    };
    SavedResults { table, texts }
}

// ---------------------------------------------------------------------------
// Counts
// ---------------------------------------------------------------------------

/// The sum of the page counts of the records.
pub open spec fn total_pages(records: Seq<Record>) -> nat
    decreases records.len(),
{
    if records.len() == 0 {
        0
    } else {
        total_pages(records.drop_last()) + records.last().page_count
    }
}

/// The number of characters of the texts of the records.
pub open spec fn total_characters(records: Seq<Record>) -> nat
    decreases records.len(),
{
    if records.len() == 0 {
        0
    } else {
        total_characters(records.drop_last()) + records.last().text.len()
    }
}

/// The failures among the records: the file name and the error of each
/// record that has one, in order.
pub open spec fn failures_of(records: Seq<Record>) -> Seq<(Seq<char>, Seq<char>)>
    decreases records.len(),
{
    if records.len() == 0 {
        Seq::empty()
    } else {
        match records.last().error {
            Some(e) => failures_of(records.drop_last()).push((records.last().filename, e)),
            None => failures_of(records.drop_last()),
        }
    }
}

/// The counts of a batch.
pub struct BatchCounts {
    /// The number of records.
    pub files: usize,
    /// The number of records without error.
    pub successful: usize,
    /// The number of records with an error.
    pub failed: usize,
    /// The sum of the page counts.
    pub pages: u128,
    /// The number of characters of all texts.
    pub characters: u128,
}

/// The counts of the records of a batch. Every record is counted once, as
/// successful or as failed.
pub fn count_results(results: &Vec<OcrResult>) -> (counts: BatchCounts)
    ensures
        counts.files == results@.len(),
        counts.failed == failed_count(records_of(results@)),
        counts.successful + counts.failed == counts.files,
        counts.pages == total_pages(records_of(results@)),
        counts.characters == total_characters(records_of(results@)),
{
    let ghost records = records_of(results@);
    let mut failed: usize = 0;
    let mut pages: u128 = 0;
    let mut characters: u128 = 0;
    let mut i: usize = 0;
    while i < results.len()
        invariant
            i <= results.len(),
            records == records_of(results@),
            failed == failed_count(records.take(i as int)),
            failed <= i,
            pages == total_pages(records.take(i as int)),
            pages <= i * 0xFFFF_FFFF_FFFF_FFFF,
            characters == total_characters(records.take(i as int)),
            characters <= i * 0xFFFF_FFFF_FFFF_FFFF,
        decreases results.len() - i,
    {
        proof {
            let next = records.take(i + 1);
            assert(next.drop_last() =~= records.take(i as int));
            assert(next.last() == results@[i as int]@);
        }
        let result = &results[i];
        if result.error.is_some() {
            failed += 1;
        }
        pages = pages + result.page_count as u128;
        characters = characters + result.text.as_str().unicode_len() as u128;
        i += 1;
    }
    assert(records.take(results.len() as int) =~= records);
    BatchCounts {
        files: results.len(),
        successful: results.len() - failed,
        failed,
        pages,
        characters,
    }
}

/// The failures among `results`: the file name and the error of each
/// record that has one, in order.
pub fn failures(results: &Vec<OcrResult>) -> (list: Vec<(String, String)>)
    ensures
        crate::batch::pairs_of(list@) == failures_of(records_of(results@)),
{
    let mut list: Vec<(String, String)> = Vec::new();
    let ghost records = records_of(results@);
    let mut i: usize = 0;
    assert(crate::batch::pairs_of(list@) =~= failures_of(records.take(0)));
    while i < results.len()
        invariant
            i <= results.len(),
            records == records_of(results@),
            crate::batch::pairs_of(list@) == failures_of(records.take(i as int)),
        decreases results.len() - i,
    {
        proof {
            let next = records.take(i + 1);
            assert(next.drop_last() =~= records.take(i as int));
            assert(next.last() == results@[i as int]@);
        }
        let result = &results[i];
        match &result.error {
            Some(e) => {
                let name = result.filename.clone();
                let error = e.clone();
                proof {
                    crate::batch::lemma_pairs_push(list@, name, error);
                }
                list.push((name, error));
            },
            None => {},
        }
        i += 1;
    }
    assert(records.take(results.len() as int) =~= records);
    list
}

} // verus!
