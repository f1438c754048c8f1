//! A batch of files: which files belong to it, how many workers take it
//! on, what is recorded for each file, and how progress is counted.
//!
//! The files of a batch are independent of each other. Each file gives
//! records of its own, a failure gives one record that says so, and the
//! records of the batch are those of its files, one after the other.

use vstd::prelude::*;
use crate::text::{chars_of, string_of, to_string, append_str, texts, lemma_texts_push, text_of};
use crate::numbers::{decimal, push_decimal};
use crate::file_type::{FileType, file_type_of, file_name, file_name_chars};
use crate::file_processors::{ProcessResult, ProcessError, Extracted, Failure, outcome_of,
    results_of};

verus! {

// ---------------------------------------------------------------------------
// The files of a batch
// ---------------------------------------------------------------------------

/// Those of `paths` whose kind is supported, in order.
pub open spec fn supported_paths(paths: Seq<Seq<char>>) -> Seq<Seq<char>>
    decreases paths.len(),
{
    if paths.len() == 0 {
        Seq::<Seq<char>>::empty()
    } else if file_type_of(paths.last()) == FileType::Unsupported {
        supported_paths(paths.drop_last())
    } else {
        supported_paths(paths.drop_last()).push(paths.last())
    }
}

/// No file of an unsupported kind is among the supported paths, and every
/// file of a supported kind is.
pub proof fn lemma_supported_paths(paths: Seq<Seq<char>>)
    ensures
        forall|i: int|
            0 <= i < supported_paths(paths).len() ==> file_type_of(
                #[trigger] supported_paths(paths)[i],
            ) != FileType::Unsupported && paths.contains(supported_paths(paths)[i]),
        forall|i: int|
            0 <= i < paths.len() && file_type_of(#[trigger] paths[i]) != FileType::Unsupported
                ==> supported_paths(paths).contains(paths[i]),
    decreases paths.len(),
{
    if paths.len() > 0 {
        let head = paths.drop_last();
        lemma_supported_paths(head);
        let picked = supported_paths(paths);
        assert forall|i: int| 0 <= i < picked.len() implies file_type_of(#[trigger] picked[i])
            != FileType::Unsupported && paths.contains(picked[i]) by {
            if i < supported_paths(head).len() {
                let p = supported_paths(head)[i];
                assert(head.contains(p));
                let j = choose|j: int| 0 <= j < head.len() && head[j] == p;
                assert(paths[j] == p);
            } else {
                assert(picked[i] == paths[paths.len() - 1]);
            }
        }
        assert forall|i: int|
            0 <= i < paths.len() && file_type_of(#[trigger] paths[i])
                != FileType::Unsupported implies picked.contains(paths[i]) by {
            if i < head.len() {
                assert(head[i] == paths[i]);
                let p = paths[i];
                assert(supported_paths(head).contains(p));
                let j = choose|j: int|
                    0 <= j < supported_paths(head).len() && supported_paths(head)[j] == p;
                assert(picked[j] == p);
            } else {
                assert(picked[picked.len() - 1] == paths[i]);
            }
        }
    }
}

/// The files that make up the batch: those of `paths` whose kind is
/// supported, in order.
pub fn collect_files(paths: &Vec<String>) -> (files: Vec<String>)
    ensures
        texts(files@) == supported_paths(texts(paths@)),
{
    let mut files: Vec<String> = Vec::new();
    let mut i: usize = 0;
    assert(texts(files@) =~= supported_paths(texts(paths@).take(0)));
    while i < paths.len()
        invariant
            i <= paths.len(),
            texts(files@) == supported_paths(texts(paths@).take(i as int)),
        decreases paths.len() - i,
    {
        proof {
            let next = texts(paths@).take(i + 1);
            assert(next.drop_last() =~= texts(paths@).take(i as int));
            assert(next.last() == paths@[i as int]@);
        }
        match FileType::from_path(paths[i].as_str()) {
            FileType::Unsupported => {},
            _ => {
                let owned = paths[i].clone();
                proof {
                    lemma_texts_push(files@, owned);
                }
                files.push(owned);
            },
        }
        i += 1;
    }
    assert(texts(paths@).take(paths.len() as int) =~= texts(paths@));
    files
}

/// Why a batch cannot be run.
#[derive(Debug, Clone, Copy, PartialEq, Eq, Structural)]
pub enum BatchError {
    /// There is no file to process.
    NoInputFiles,
}

impl BatchError {
    /// The message of the error.
    pub fn message(&self) -> (s: String)
        ensures
            s@ == "Input directory was empty"@,
    {
        to_string("Input directory was empty")
    }
}

/// A batch needs at least one file: with none, the whole run fails.
pub fn check_batch(files: &Vec<String>) -> (r: Result<(), BatchError>)
    ensures
        files@.len() == 0 ==> r == Err::<(), BatchError>(BatchError::NoInputFiles),
        files@.len() > 0 ==> r is Ok,
{
    if files.len() == 0 {
        Err(BatchError::NoInputFiles)
    } else {
        Ok(())
    }
}

// ---------------------------------------------------------------------------
// Workers
// ---------------------------------------------------------------------------

/// The number of workers for a batch: as many as allowed, but no more than
/// there are files.
pub open spec fn workers_for(files: nat, allowed: nat) -> nat {
    if files <= allowed {
        files
    } else {
        allowed
    }
}

/// The number of workers for a batch of `files` files where `allowed`
/// workers are allowed.
pub fn worker_count(files: usize, allowed: usize) -> (n: usize)
    ensures
        n == workers_for(files as nat, allowed as nat),
        n <= files,
        n <= allowed,
{
    if files <= allowed {
        files
    } else {
        allowed
    }
}

/// The number of workers that is allowed where nothing else is asked for:
/// one less than the machine can run at once, and at least one.
pub open spec fn default_allowed(parallelism: Option<usize>) -> nat {
    match parallelism {
        Some(n) => if n <= 2 {
            1
        } else {
            (n - 1) as nat
        },
        None => 1,
    }
}

/// The number of workers that is allowed by default on a machine that can
/// run `parallelism` threads at once.
pub fn default_workers(parallelism: Option<usize>) -> (n: usize)
    ensures
        n == default_allowed(parallelism),
        n >= 1,
{
    match parallelism {
        Some(n) => if n <= 2 {
            1
        } else {
            n - 1
        },
        None => 1,
    }
}

// ---------------------------------------------------------------------------
// What is known of a file besides its text
// ---------------------------------------------------------------------------

/// What the file system and the image decoder say of a file.
#[derive(Debug, Clone)]
pub struct FileFacts {
    /// The size of the file in bytes.
    pub size: Option<u64>,
    /// The time of its last change, as it is to be shown.
    pub modified: Option<String>,
    /// For an image that could be decoded: its width and height in pixels.
    pub dimensions: Option<(u32, u32)>,
    /// For an image that could be decoded: the name of its colour type.
    pub color_type: Option<String>,
}

/// The entries of a file's metadata: pairs of a key and a value.
pub open spec fn pairs_of(v: Seq<(String, String)>) -> Seq<(Seq<char>, Seq<char>)> {
    Seq::new(v.len(), |i: int| (v[i].0@, v[i].1@))
}

/// The entries of a vector with one more pair.
pub proof fn lemma_pairs_push(v: Seq<(String, String)>, k: String, x: String)
    ensures
        pairs_of(v.push((k, x))) == pairs_of(v).push((k@, x@)),
{
    assert(pairs_of(v.push((k, x))) =~= pairs_of(v).push((k@, x@)));
}

/// The entry for the size of a file.
pub open spec fn size_entries(size: Option<u64>) -> Seq<(Seq<char>, Seq<char>)> {
    match size {
        Some(n) => seq![("size"@, decimal(n as nat) + " bytes"@)],
        None => Seq::empty(),
    }
}

/// The entry for the time of the last change of a file.
pub open spec fn modified_entries(modified: Option<String>) -> Seq<(Seq<char>, Seq<char>)> {
    match modified {
        Some(m) => seq![("modified"@, m@)],
        None => Seq::empty(),
    }
}

/// The entries that depend on the kind of the file: the dimensions and the
/// colour type of an image, a description of a document.
pub open spec fn kind_entries(file_type: FileType, facts: FileFacts) -> Seq<
    (Seq<char>, Seq<char>),
> {
    match file_type {
        FileType::Image(_) => (match facts.dimensions {
            Some(d) => seq![("dimensions"@, decimal(d.0 as nat) + "x"@ + decimal(d.1 as nat))],
            None => Seq::empty(),
        }) + (match facts.color_type {
            Some(c) => seq![("color_type"@, c@)],
            None => Seq::empty(),
        }),
        FileType::Pdf => seq![("type"@, "PDF Document"@)],
        FileType::Docx => seq![("type"@, "Word Document"@)],
        FileType::Xlsx | FileType::Xls => seq![("type"@, "Excel Spreadsheet"@)],
        _ => Seq::empty(),
    }
}

/// The metadata of the file at `path`: its path, its size, the time of its
/// last change, and what depends on its kind.
pub open spec fn metadata_of(path: Seq<char>, file_type: FileType, facts: FileFacts) -> Seq<
    (Seq<char>, Seq<char>),
> {
    seq![("path"@, path)] + size_entries(facts.size) + modified_entries(facts.modified)
        + kind_entries(file_type, facts)
}

fn push_entry(out: &mut Vec<(String, String)>, key: &str, value: &Vec<char>)
    ensures
        pairs_of(final(out)@) == pairs_of(old(out)@).push((key@, value@)),
{
    let k = to_string(key);
    let x = string_of(value);
    proof {
        lemma_pairs_push(out@, k, x);
    }
    out.push((k, x));
}

/// The metadata of the file at `path`.
pub fn extract_metadata(path: &str, file_type: &FileType, facts: &FileFacts) -> (entries: Vec<
    (String, String),
>)
    ensures
        pairs_of(entries@) == metadata_of(path@, *file_type, *facts),
{
    let mut entries: Vec<(String, String)> = Vec::new();
    assert(pairs_of(entries@) =~= Seq::empty());
    push_entry(&mut entries, "path", &chars_of(path));
    match facts.size {
        Some(n) => {
            let mut value: Vec<char> = Vec::new();
            push_decimal(&mut value, n as u128);
            append_str(&mut value, " bytes");
            assert(value@ =~= decimal(n as nat) + " bytes"@);
            push_entry(&mut entries, "size", &value);
        },
        None => {},
    }
    assert(pairs_of(entries@) =~= seq![("path"@, path@)] + size_entries(facts.size));
    match &facts.modified {
        Some(m) => {
            push_entry(&mut entries, "modified", &chars_of(m.as_str()));
        },
        None => {},
    }
    assert(pairs_of(entries@) =~= seq![("path"@, path@)] + size_entries(facts.size)
        + modified_entries(facts.modified));
    let ghost common = pairs_of(entries@);
    match file_type {
        FileType::Image(_) => {
            match facts.dimensions {
                Some(d) => {
                    let mut value: Vec<char> = Vec::new();
                    push_decimal(&mut value, d.0 as u128);
                    append_str(&mut value, "x");
                    push_decimal(&mut value, d.1 as u128);
                    assert(value@ =~= decimal(d.0 as nat) + "x"@ + decimal(d.1 as nat));
                    push_entry(&mut entries, "dimensions", &value);
                },
                None => {},
            }
            match &facts.color_type {
                Some(c) => {
                    push_entry(&mut entries, "color_type", &chars_of(c.as_str()));
                },
                None => {},
            }
        },
        FileType::Pdf => {
            push_entry(&mut entries, "type", &chars_of("PDF Document"));
        },
        FileType::Docx => {
            push_entry(&mut entries, "type", &chars_of("Word Document"));
        },
        FileType::Xlsx | FileType::Xls => {
            push_entry(&mut entries, "type", &chars_of("Excel Spreadsheet"));
        },
        _ => {},
    }
    assert(pairs_of(entries@) =~= common + kind_entries(*file_type, *facts));
    entries
}

// ---------------------------------------------------------------------------
// Records
// ---------------------------------------------------------------------------

/// What is recorded for one result of one file.
#[derive(Debug, Clone)]
pub struct OcrResult {
    pub filename: String,
    pub file_type: String,
    pub page_count: usize,
    pub text: String,
    pub processing_time_ms: u128,
    pub error: Option<String>,
    pub metadata: Vec<(String, String)>,
}

/// The mathematical content of an `OcrResult`.
pub struct Record {
    pub filename: Seq<char>,
    pub file_type: Seq<char>,
    pub page_count: nat,
    pub text: Seq<char>,
    pub processing_time_ms: nat,
    pub error: Option<Seq<char>>,
    pub metadata: Seq<(Seq<char>, Seq<char>)>,
}

impl View for OcrResult {
    type V = Record;

    open spec fn view(&self) -> Record {
        Record {
            filename: self.filename@,
            file_type: self.file_type@,
            page_count: self.page_count as nat,
            text: self.text@,
            processing_time_ms: self.processing_time_ms as nat,
            error: match self.error {
                Some(e) => Some(e@),
                None => None,
            },
            metadata: pairs_of(self.metadata@),
        }
    }
}

/// The contents of the elements of `v`, in order.
pub open spec fn records_of(v: Seq<OcrResult>) -> Seq<Record> {
    Seq::new(v.len(), |i: int| v[i]@)
}

/// The name under which the file at `path` is recorded: its file name, or
/// the path itself where it has none.
pub open spec fn display_name(path: Seq<char>) -> Seq<char> {
    match file_name(path) {
        Some(name) => name,
        None => path,
    }
}

/// The record of a success.
pub open spec fn success_record(
    path: Seq<char>,
    result: Extracted,
    elapsed_ms: nat,
    facts: FileFacts,
) -> Record {
    Record {
        filename: display_name(path),
        file_type: result.file_type.label(),
        page_count: result.page_count,
        text: result.text,
        processing_time_ms: elapsed_ms,
        error: None,
        metadata: metadata_of(path, result.file_type, facts),
    }
}

/// The record of a failure: no pages, no text, no metadata, and the
/// message of the failure.
pub open spec fn failure_record(path: Seq<char>, failure: Failure, elapsed_ms: nat) -> Record {
    Record {
        filename: display_name(path),
        file_type: file_type_of(path).label(),
        page_count: 0,
        text: Seq::empty(),
        processing_time_ms: elapsed_ms,
        error: Some("Processing error: "@ + failure.message()),
        metadata: Seq::empty(),
    }
}

/// The records of the results of a file, in order.
pub open spec fn success_records(
    path: Seq<char>,
    results: Seq<Extracted>,
    elapsed_ms: nat,
    facts: FileFacts,
) -> Seq<Record> {
    Seq::new(results.len(), |i: int| success_record(path, results[i], elapsed_ms, facts))
}

/// The records of a file: one for each result, or one for its failure.
pub open spec fn records_for(
    path: Seq<char>,
    outcome: Result<Seq<Extracted>, Failure>,
    elapsed_ms: nat,
    facts: FileFacts,
) -> Seq<Record> {
    match outcome {
        Ok(results) => success_records(path, results, elapsed_ms, facts),
        Err(failure) => seq![failure_record(path, failure, elapsed_ms)],
    }
}

/// The name under which the file at `path` is recorded.
pub fn display_name_of(path: &str) -> (name: String)
    ensures
        name@ == display_name(path@),
{
    let chars = chars_of(path);
    match file_name_chars(&chars) {
        Some(name) => string_of(&name),
        None => string_of(&chars),
    }
}

/// The message that announces the work on the file called `filename`.
pub fn progress_message(filename: &str) -> (message: String)
    ensures
        message@ == "Processing: "@ + filename@,
{
    let mut out: Vec<char> = Vec::new();
    append_str(&mut out, "Processing: ");
    append_str(&mut out, filename);
    assert(out@ =~= "Processing: "@ + filename@);
    string_of(&out)
}

/// The records of the file at `path`, given the outcome of its processing,
/// the time it took and what else is known of the file. A failure is
/// recorded, never handed on.
pub fn process_single_file(
    path: &str,
    outcome: Result<Vec<ProcessResult>, ProcessError>,
    elapsed_ms: u128,
    facts: &FileFacts,
) -> (records: Vec<OcrResult>)
    ensures
        records_of(records@) == records_for(path@, outcome_of(outcome), elapsed_ms as nat, *facts),
{
    let filename = display_name_of(path);
    let mut records: Vec<OcrResult> = Vec::new();
    match outcome {
        Ok(results) => {
            let mut i: usize = 0;
            while i < results.len()
                invariant
                    i <= results.len(),
                    filename@ == display_name(path@),
                    records@.len() == i,
                    forall|j: int|
                        0 <= j < i ==> (#[trigger] records@[j])@ == success_record(
                            path@,
                            results@[j]@,
                            elapsed_ms as nat,
                            *facts,
                        ),
                decreases results.len() - i,
            {
                let result = &results[i];
                let record = OcrResult {
                    filename: filename.clone(),
                    file_type: result.file_type.to_string(),
                    page_count: result.page_count,
                    text: result.text.clone(),
                    processing_time_ms: elapsed_ms,
                    error: None,
                    metadata: extract_metadata(path, &result.file_type, facts),
                };
                records.push(record);
                i += 1;
            }
            assert(records_of(records@) =~= success_records(
                path@,
                results_of(results@),
                elapsed_ms as nat,
                *facts,
            ));
        },
        Err(e) => {
            let mut message: Vec<char> = Vec::new();
            append_str(&mut message, "Processing error: ");
            append_str(&mut message, e.message().as_str());
            let record = OcrResult {
                filename,
                file_type: FileType::from_path(path).to_string(),
                page_count: 0,
                text: String::new(),
                processing_time_ms: elapsed_ms,
                error: Some(string_of(&message)),
                metadata: Vec::new(),
            };
            assert(pairs_of(record.metadata@) =~= Seq::empty());
            records.push(record);
            assert(records_of(records@) =~= seq![
                failure_record(path@, e@, elapsed_ms as nat),
            ]);
        },
    }
    records
}

// ---------------------------------------------------------------------------
// The records of a batch
// ---------------------------------------------------------------------------

/// The records of the files of a batch, one file after the other.
pub open spec fn flatten(batches: Seq<Seq<Record>>) -> Seq<Record>
    decreases batches.len(),
{
    if batches.len() == 0 {
        Seq::<Record>::empty()
    } else {
        flatten(batches.drop_last()) + batches.last()
    }
}

/// The records of each file of a batch.
pub open spec fn batches_of(v: Seq<Vec<OcrResult>>) -> Seq<Seq<Record>> {
    Seq::new(v.len(), |i: int| records_of(v[i]@))
}

/// The number of records that report a failure.
pub open spec fn failed_count(records: Seq<Record>) -> nat
    decreases records.len(),
{
    if records.len() == 0 {
        0
    } else {
        failed_count(records.drop_last()) + if records.last().error is Some {
            1nat
        } else {
            0nat
        }
    }
}

/// The failures of two runs of records are those of the one and those of
/// the other.
pub proof fn lemma_failed_count_concat(a: Seq<Record>, b: Seq<Record>)
    ensures
        failed_count(a + b) == failed_count(a) + failed_count(b),
    decreases b.len(),
{
    if b.len() == 0 {
        assert(a + b =~= a);
    } else {
        assert((a + b).drop_last() =~= a + b.drop_last());
        assert((a + b).last() == b.last());
        lemma_failed_count_concat(a, b.drop_last());
    }
}

/// The records of a batch, file after file.
pub fn collect_results(batches: Vec<Vec<OcrResult>>) -> (records: Vec<OcrResult>)
    ensures
        records_of(records@) == flatten(batches_of(batches@)),
{
    let mut records: Vec<OcrResult> = Vec::new();
    let mut batches = batches;
    let ghost all = batches_of(batches@);
    let mut i: usize = 0;
    assert(records_of(records@) =~= flatten(all.take(0)));
    while i < batches.len()
        invariant
            i <= batches.len(),
            all.len() == batches.len(),
            forall|j: int| i <= j < batches.len() ==> records_of(#[trigger] batches@[j]@) == all[j],
            records_of(records@) == flatten(all.take(i as int)),
        decreases batches.len() - i,
    {
        proof {
            let next = all.take(i + 1);
            assert(next.drop_last() =~= all.take(i as int));
            assert(next.last() == all[i as int]);
        }
        let ghost before = records@;
        let ghost moved = batches@[i as int]@;
        let mut taken: Vec<OcrResult> = Vec::new();
        std::mem::swap(&mut taken, &mut batches[i]);
        assert(taken@ == moved);
        records.append(&mut taken);
        assert(records@ =~= before + moved);
        assert(records_of(records@) =~= records_of(before) + records_of(moved));
        i += 1;
    }
    assert(all.take(batches.len() as int) =~= all);
    records
}

/// A file that gave one record without error.
pub open spec fn is_success_batch(batch: Seq<Record>) -> bool {
    batch.len() == 1 && batch[0].error is None
}

/// A file that gave one record of a failure: it has an error and neither
/// pages nor text.
pub open spec fn is_failure_batch(batch: Seq<Record>) -> bool {
    batch.len() == 1 && batch[0].error is Some && batch[0].page_count == 0 && batch[0].text.len()
        == 0
}

/// The record of a failure holds a message that is not empty, no pages, no
/// text and no metadata.
pub proof fn lemma_failure_is_recorded(
    path: Seq<char>,
    failure: Failure,
    elapsed_ms: nat,
    facts: FileFacts,
)
    ensures
        is_failure_batch(records_for(path, Err(failure), elapsed_ms, facts)),
        records_for(path, Err(failure), elapsed_ms, facts)[0].error->0.len() > 0,
        records_for(path, Err(failure), elapsed_ms, facts)[0].metadata.len() == 0,
{
    reveal_strlit("Processing error: ");
}

/// A success with one result gives one record without error.
pub proof fn lemma_success_is_recorded(
    path: Seq<char>,
    result: Extracted,
    elapsed_ms: nat,
    facts: FileFacts,
)
    ensures
        is_success_batch(records_for(path, Ok(seq![result]), elapsed_ms, facts)),
{
}

/// Where every file of a batch gave one record, a batch of so many files
/// gives so many records, and the record at each place is that of the
/// file at that place.
pub proof fn lemma_one_record_per_file(batches: Seq<Seq<Record>>)
    requires
        forall|i: int| 0 <= i < batches.len() ==> (#[trigger] batches[i]).len() == 1,
    ensures
        flatten(batches).len() == batches.len(),
        forall|i: int| 0 <= i < batches.len() ==> flatten(batches)[i] == (#[trigger] batches[i])[0],
    decreases batches.len(),
{
    if batches.len() > 0 {
        let head = batches.drop_last();
        assert forall|i: int| 0 <= i < head.len() implies (#[trigger] head[i]).len() == 1 by {
            assert(head[i] == batches[i]);
        }
        lemma_one_record_per_file(head);
        assert forall|i: int| 0 <= i < batches.len() implies flatten(batches)[i] == (
        #[trigger] batches[i])[0] by {
            if i < head.len() {
                assert(head[i] == batches[i]);
                assert(flatten(batches)[i] == flatten(head)[i]);
            } else {
                assert(batches[i] == batches.last());
                assert(flatten(batches)[i] == batches.last()[i - flatten(head).len()]);
            }
        }
    }
}

/// The failure of one file stays with that file: where file `k` fails and
/// every other file succeeds, the batch still gives one record for each
/// file, and exactly one of them reports a failure.
pub proof fn lemma_fault_isolation(batches: Seq<Seq<Record>>, k: int)
    requires
        0 <= k < batches.len(),
        is_failure_batch(batches[k]),
        forall|i: int| 0 <= i < batches.len() && i != k ==> is_success_batch(#[trigger] batches[i]),
    ensures
        flatten(batches).len() == batches.len(),
        failed_count(flatten(batches)) == 1,
    decreases batches.len(),
{
    assert forall|i: int| 0 <= i < batches.len() implies (#[trigger] batches[i]).len() == 1 by {
        if i != k {
            assert(is_success_batch(batches[i]));
        }
    }
    lemma_one_record_per_file(batches);
    let head = batches.drop_last();
    let last = batches.last();
    lemma_failed_count_concat(flatten(head), last);
    assert(last.drop_last() =~= Seq::<Record>::empty());
    assert(failed_count(last) == failed_count(last.drop_last()) + if last.last().error is Some {
        1nat
    } else {
        0nat
    });
    if k == batches.len() - 1 {
        assert forall|i: int| 0 <= i < head.len() implies is_success_batch(#[trigger] head[i]) by {
            assert(head[i] == batches[i]);
        }
        lemma_no_failure(head);
    } else {
        assert(head[k] == batches[k]);
        assert forall|i: int| 0 <= i < head.len() && i != k implies is_success_batch(
            #[trigger] head[i],
        ) by {
            assert(head[i] == batches[i]);
        }
        lemma_fault_isolation(head, k);
        assert(is_success_batch(batches[batches.len() - 1]));
    }
}

/// Where every file succeeds, no record reports a failure.
pub proof fn lemma_no_failure(batches: Seq<Seq<Record>>)
    requires
        forall|i: int| 0 <= i < batches.len() ==> is_success_batch(#[trigger] batches[i]),
    ensures
        failed_count(flatten(batches)) == 0,
    decreases batches.len(),
{
    if batches.len() > 0 {
        let head = batches.drop_last();
        let last = batches.last();
        assert forall|i: int| 0 <= i < head.len() implies is_success_batch(#[trigger] head[i]) by {
            assert(head[i] == batches[i]);
        }
        lemma_no_failure(head);
        lemma_failed_count_concat(flatten(head), last);
        assert(is_success_batch(batches[batches.len() - 1]));
        assert(last.drop_last() =~= Seq::<Record>::empty());
        assert(failed_count(last) == failed_count(last.drop_last()));
    }
}

/// The records of the files at `paths`, where the file at each place had
/// the outcome, took the time and has the facts at that place.
pub open spec fn batch_records(
    paths: Seq<Seq<char>>,
    outcomes: Seq<Result<Seq<Extracted>, Failure>>,
    elapsed_ms: Seq<nat>,
    facts: Seq<FileFacts>,
) -> Seq<Record> {
    flatten(
        Seq::new(paths.len(), |i: int| records_for(paths[i], outcomes[i], elapsed_ms[i], facts[i])),
    )
}

/// A batch of files of which one fails and each other gives one result:
/// there is one record for each file, in the order of the files; exactly
/// one record reports a failure, that of the file that failed; and that
/// record holds a message that is not empty, no pages and no text.
pub proof fn lemma_failure_stays_with_its_file(
    paths: Seq<Seq<char>>,
    outcomes: Seq<Result<Seq<Extracted>, Failure>>,
    elapsed_ms: Seq<nat>,
    facts: Seq<FileFacts>,
    k: int,
)
    requires
        outcomes.len() == paths.len(),
        elapsed_ms.len() == paths.len(),
        facts.len() == paths.len(),
        0 <= k < paths.len(),
        outcomes[k] is Err,
        forall|i: int|
            0 <= i < paths.len() && i != k ==> (#[trigger] outcomes[i]) is Ok && outcomes[i]->Ok_0.len()
                == 1,
    ensures
        batch_records(paths, outcomes, elapsed_ms, facts).len() == paths.len(),
        failed_count(batch_records(paths, outcomes, elapsed_ms, facts)) == 1,
        forall|j: int|
            0 <= j < paths.len() ==> ((#[trigger] batch_records(
                paths,
                outcomes,
                elapsed_ms,
                facts,
            )[j]).error is Some <==> j == k),
        batch_records(paths, outcomes, elapsed_ms, facts)[k].error->0.len() > 0,
        batch_records(paths, outcomes, elapsed_ms, facts)[k].page_count == 0,
        batch_records(paths, outcomes, elapsed_ms, facts)[k].text.len() == 0,
{
    let batches = Seq::new(
        paths.len(),
        |i: int| records_for(paths[i], outcomes[i], elapsed_ms[i], facts[i]),
    );
    lemma_failure_is_recorded(paths[k], outcomes[k]->Err_0, elapsed_ms[k], facts[k]);
    assert(is_failure_batch(batches[k]));
    assert forall|i: int| 0 <= i < batches.len() && i != k implies is_success_batch(
        #[trigger] batches[i],
    ) by {
        assert(outcomes[i] is Ok);
        let results = outcomes[i]->Ok_0;
        assert(results =~= seq![results[0]]);
        lemma_success_is_recorded(paths[i], results[0], elapsed_ms[i], facts[i]);
    }
    lemma_fault_isolation(batches, k);
    assert forall|i: int| 0 <= i < batches.len() implies (#[trigger] batches[i]).len() == 1 by {
        if i != k {
            assert(is_success_batch(batches[i]));
        }
    }
    lemma_one_record_per_file(batches);
    let records = batch_records(paths, outcomes, elapsed_ms, facts);
    assert forall|j: int| 0 <= j < paths.len() implies ((#[trigger] records[j]).error is Some <==> j
        == k) by {
        assert(records[j] == batches[j][0]);
        if j != k {
            assert(is_success_batch(batches[j]));
        }
    }
    assert(records[k] == batches[k][0]);
}

// ---------------------------------------------------------------------------
// Progress
// ---------------------------------------------------------------------------

/// How far a batch has come.
pub struct ProgressCounter {
    completed: usize,
    total: usize,
    last: Option<String>,
}

/// The mathematical content of a `ProgressCounter`.
pub struct Progress {
    /// The number of files that are done.
    pub completed: nat,
    /// The number of files of the batch.
    pub total: nat,
    /// The name of the file that was done last.
    pub last: Option<Seq<char>>,
}

/// The progress of a batch of `total` files of which none is done.
pub open spec fn initial_progress(total: nat) -> Progress {
    Progress { completed: 0, total, last: None }
}

/// The progress after one more file, called `filename`, is done.
pub open spec fn completion(progress: Progress, filename: Seq<char>) -> Progress {
    Progress { completed: progress.completed + 1, total: progress.total, last: Some(filename) }
}

/// The progress after the files called `filenames` are done, in that order.
pub open spec fn after_completions(progress: Progress, filenames: Seq<Seq<char>>) -> Progress
    decreases filenames.len(),
{
    if filenames.len() == 0 {
        progress
    } else {
        completion(after_completions(progress, filenames.drop_last()), filenames.last())
    }
}

/// Each completion counts once: after so many files are done, the count has
/// grown by so many, and the total is what it was.
pub proof fn lemma_completions_count(progress: Progress, filenames: Seq<Seq<char>>)
    ensures
        after_completions(progress, filenames).completed == progress.completed + filenames.len(),
        after_completions(progress, filenames).total == progress.total,
    decreases filenames.len(),
{
    if filenames.len() > 0 {
        lemma_completions_count(progress, filenames.drop_last());
    }
}

/// When all files of a batch are done, in whatever order, the count is the
/// number of files.
pub proof fn lemma_progress_reaches_total(filenames: Seq<Seq<char>>, order: Seq<Seq<char>>)
    requires
        order.to_multiset() == filenames.to_multiset(),
    ensures
        after_completions(initial_progress(filenames.len()), order).completed == filenames.len(),
        after_completions(initial_progress(filenames.len()), order).completed
            == after_completions(initial_progress(filenames.len()), order).total,
{
    lemma_completions_count(initial_progress(filenames.len()), order);
    order.to_multiset_ensures();
    filenames.to_multiset_ensures();
}

impl View for ProgressCounter {
    type V = Progress;

    closed spec fn view(&self) -> Progress {
        Progress {
            completed: self.completed as nat,
            total: self.total as nat,
            last: match self.last {
                Some(name) => Some(name@),
                None => None,
            },
        }
    }
}

impl ProgressCounter {
    /// The counter of a batch of `total` files.
    pub fn new(total: usize) -> (r: Self)
        ensures
            r@ == initial_progress(total as nat),
    {
        ProgressCounter { completed: 0, total, last: None }
    }

    /// Counts one more file, called `filename`, as done. The count grows by
    /// exactly one; only a count that has reached the largest number the
    /// machine can hold stays where it is.
    pub fn record_completion(&mut self, filename: &str)
        ensures
            old(self)@.completed < usize::MAX ==> final(self)@ == completion(old(self)@, filename@),
            old(self)@.completed >= usize::MAX ==> final(self)@ == (Progress {
                last: Some(filename@),
                ..old(self)@
            }),
    {
        if self.completed < usize::MAX {
            self.completed = self.completed + 1;
        }
        self.last = Some(to_string(filename));
    }

    /// The number of files that are done.
    pub fn completed(&self) -> (n: usize)
        ensures
            n == self@.completed,
    {
        self.completed
    }

    /// The number of files of the batch.
    pub fn total(&self) -> (n: usize)
        ensures
            n == self@.total,
    {
        self.total
    }

    /// The name of the file that was done last.
    pub fn last_completed(&self) -> (name: Option<String>)
        ensures
            text_of(name) == self@.last,
    {
        match &self.last {
            Some(n) => Some(n.clone()),
            None => None,
        }
    }

    /// Whether every file of the batch is done.
    pub fn is_finished(&self) -> (r: bool)
        ensures
            r == (self@.completed >= self@.total),
    {
        self.completed >= self.total
    }
}

} // verus!
