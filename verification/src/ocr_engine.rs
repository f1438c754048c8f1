//! The OCR engine's side of the library: how the engine is invoked, and how
//! what it prints is read.
//!
//! The engine is a separate program. The library builds its argument lists
//! and interprets its output; running it is left to the caller, who hands
//! the outcome back as a `CommandOutput`.

use vstd::prelude::*;
use vstd::utf8::{valid_utf8, decode_utf8};
use crate::text::{chars_of, chars_are, string_of, to_string, append_str, append_chars, texts,
    lemma_texts_push, push_text, text_of};
use crate::split::{split, split_chars, lines, lines_of, views, trim, trim_chars, join,
    join_strings};
use crate::numbers::{decimal, parse_u32, parse_u32_chars, push_decimal_text};

verus! {

// ---------------------------------------------------------------------------
// What a finished engine run hands back
// ---------------------------------------------------------------------------

/// The outcome of one run of an external program.
#[derive(Debug, Clone)]
pub struct CommandOutput {
    /// Whether the program reported success.
    pub success: bool,
    /// What it wrote to its standard output, byte for byte.
    pub stdout: Vec<u8>,
    /// What it wrote to its standard error, as text.
    pub stderr: String,
}

/// Why an engine run gave no result.
#[derive(Debug, Clone)]
pub enum OcrError {
    /// The engine could not be run at all; holds the reason.
    NotRun(String),
    /// Plain text recognition ended in failure; holds the engine's
    /// diagnostics.
    EngineFailed(String),
    /// Word-level recognition ended in failure; holds the engine's
    /// diagnostics.
    TsvFailed(String),
    /// The engine's output is not UTF-8.
    InvalidUtf8,
    /// The engine could not list its languages.
    LanguagesUnavailable,
    /// Requested languages that the engine does not have, in the order in
    /// which they were requested.
    MissingLanguages(Vec<String>),
}

impl OcrError {
    /// The message of the error.
    pub open spec fn message_text(self) -> Seq<char> {
        match self {
            OcrError::NotRun(reason) => reason@,
            OcrError::EngineFailed(stderr) => "Tesseract failed: "@ + stderr@,
            OcrError::TsvFailed(stderr) => "Tesseract TSV failed: "@ + stderr@,
            OcrError::InvalidUtf8 => "invalid utf-8 in engine output"@,
            OcrError::LanguagesUnavailable => "Cannot check Tesseract languages"@,
            OcrError::MissingLanguages(missing) => "Missing language packs: "@ + join(
                texts(missing@),
                ", "@,
            ),
        }
    }

    /// The message of the error.
    pub fn message(&self) -> (s: String)
        ensures
            s@ == self.message_text(),
    {
        let mut out: Vec<char> = Vec::new();
        match self {
            OcrError::NotRun(reason) => {
                append_str(&mut out, reason.as_str());
            },
            OcrError::EngineFailed(stderr) => {
                append_str(&mut out, "Tesseract failed: ");
                append_str(&mut out, stderr.as_str());
            },
            OcrError::TsvFailed(stderr) => {
                append_str(&mut out, "Tesseract TSV failed: ");
                append_str(&mut out, stderr.as_str());
            },
            OcrError::InvalidUtf8 => {
                append_str(&mut out, "invalid utf-8 in engine output");
            },
            OcrError::LanguagesUnavailable => {
                append_str(&mut out, "Cannot check Tesseract languages");
            },
            OcrError::MissingLanguages(missing) => {
                append_str(&mut out, "Missing language packs: ");
                let joined = join_strings(missing, ", ");
                append_chars(&mut out, &joined);
            },
        }
        assert(out@ =~= self.message_text());
        string_of(&out)
    }
}

/// `String::from_utf8` of the standard library: the text that `bytes`
/// encode, and `None` exactly when `bytes` are not valid UTF-8.
#[verifier::external_body]
fn string_from_utf8(bytes: Vec<u8>) -> (r: Option<String>)
    ensures
        r is Some <==> valid_utf8(bytes@),
        r matches Some(s) ==> s@ == decode_utf8(bytes@),
{
    String::from_utf8(bytes).ok()
}

/// The text that `bytes` encode in UTF-8.
pub open spec fn utf8_text(bytes: Seq<u8>) -> Option<Seq<char>> {
    if valid_utf8(bytes) {
        Some(decode_utf8(bytes))
    } else {
        None
    }
}

/// The text that `bytes` encode in UTF-8, if they encode any.
pub fn decode_text(bytes: &Vec<u8>) -> (r: Option<String>)
    ensures
        text_of(r) == utf8_text(bytes@),
{
    string_from_utf8(bytes.clone())
}

// ---------------------------------------------------------------------------
// Words
// ---------------------------------------------------------------------------

/// Where a word stands in the image, in pixels.
#[derive(Debug, Clone, Copy, PartialEq, Eq, Structural)]
pub struct BoundingBox {
    pub left: u32,
    pub top: u32,
    pub width: u32,
    pub height: u32,
}

/// One recognized word.
#[derive(Debug, Clone)]
pub struct OcrWordResult {
    /// The word.
    pub text: String,
    /// The engine's confidence in the word, as the engine wrote it.
    pub confidence: String,
    /// Where the word stands in the image.
    pub bounding_box: Option<BoundingBox>,
}

/// The mathematical content of an `OcrWordResult`.
pub struct Word {
    pub text: Seq<char>,
    pub confidence: Seq<char>,
    pub bounding_box: Option<BoundingBox>,
}

impl View for OcrWordResult {
    type V = Word;

    open spec fn view(&self) -> Word {
        Word {
            text: self.text@,
            confidence: self.confidence@,
            bounding_box: self.bounding_box,
        }
    }
}

/// The contents of the elements of `v`, in order.
pub open spec fn words_of(v: Seq<OcrWordResult>) -> Seq<Word> {
    Seq::new(v.len(), |i: int| v[i]@)
}

/// The number that a column holds, and zero where it holds none.
pub open spec fn number_or_zero(s: Seq<char>) -> u32 {
    match parse_u32(s) {
        Some(v) => v,
        None => 0,
    }
}

/// The columns of a row.
pub open spec fn columns(row: Seq<char>) -> Seq<Seq<char>> {
    split(row, '\t')
}

/// Whether a row describes a word: it has at least twelve columns, the
/// first of them is the word level `5`, and the twelfth, the text, is not
/// empty.
pub open spec fn is_word_row(row: Seq<char>) -> bool {
    let cols = columns(row);
    cols.len() >= 12 && cols[0] == "5"@ && cols[11].len() > 0
}

/// The word that a word row describes.
pub open spec fn word_of_row(row: Seq<char>) -> Word {
    let cols = columns(row);
    Word {
        text: cols[11],
        confidence: cols[10],
        bounding_box: Some(
            BoundingBox {
                left: number_or_zero(cols[6]),
                top: number_or_zero(cols[7]),
                width: number_or_zero(cols[8]),
                height: number_or_zero(cols[9]),
            },
        ),
    }
}

/// The words that `rows` describe, in the order of the rows.
pub open spec fn words_of_rows(rows: Seq<Seq<char>>) -> Seq<Word>
    decreases rows.len(),
{
    if rows.len() == 0 {
        Seq::<Word>::empty()
    } else if is_word_row(rows.last()) {
        words_of_rows(rows.drop_last()).push(word_of_row(rows.last()))
    } else {
        words_of_rows(rows.drop_last())
    }
}

/// The rows of the engine's table below its header line.
pub open spec fn data_rows(tsv: Seq<char>) -> Seq<Seq<char>> {
    let all = lines(tsv);
    if all.len() == 0 {
        all
    } else {
        all.skip(1)
    }
}

/// The words that the engine's table describes.
pub open spec fn parse_tsv(tsv: Seq<char>) -> Seq<Word> {
    words_of_rows(data_rows(tsv))
}

/// The words of two runs of rows are those of the first followed by those
/// of the second.
pub proof fn lemma_words_of_rows_concat(a: Seq<Seq<char>>, b: Seq<Seq<char>>)
    ensures
        words_of_rows(a + b) == words_of_rows(a) + words_of_rows(b),
    decreases b.len(),
{
    if b.len() == 0 {
        assert(a + b =~= a);
        assert(words_of_rows(a) + words_of_rows(b) =~= words_of_rows(a));
    } else {
        assert((a + b).drop_last() =~= a + b.drop_last());
        assert((a + b).last() == b.last());
        lemma_words_of_rows_concat(a, b.drop_last());
        if is_word_row(b.last()) {
            assert((words_of_rows(a) + words_of_rows(b.drop_last())).push(word_of_row(b.last()))
                =~= words_of_rows(a) + words_of_rows(b.drop_last()).push(word_of_row(b.last())));
        }
    }
}

/// A row that is no word row, wherever it stands among the rows, adds no
/// word and takes none away: a row of another level, a row with fewer than
/// twelve columns, a row without text.
pub proof fn lemma_other_rows_are_skipped(
    before: Seq<Seq<char>>,
    row: Seq<char>,
    after: Seq<Seq<char>>,
)
    requires
        columns(row).len() < 12 || columns(row)[0] != "5"@ || columns(row)[11].len() == 0,
    ensures
        words_of_rows(before + seq![row] + after) == words_of_rows(before + after),
{
    lemma_words_of_rows_concat(before + seq![row], after);
    lemma_words_of_rows_concat(before, seq![row]);
    lemma_words_of_rows_concat(before, after);
    let single = seq![row];
    assert(single.drop_last() =~= Seq::<Seq<char>>::empty());
    assert(single.last() == row);
    assert(!is_word_row(row));
    assert(words_of_rows(single) == words_of_rows(single.drop_last()));
    assert(words_of_rows(single) =~= Seq::<Word>::empty());
    assert(words_of_rows(before) + Seq::<Word>::empty() =~= words_of_rows(before));
}

/// Every word comes from a word row: one of level `5` with at least twelve
/// columns and a text.
pub proof fn lemma_words_come_from_word_rows(rows: Seq<Seq<char>>, k: int)
    requires
        0 <= k < words_of_rows(rows).len(),
    ensures
        exists|i: int|
            0 <= i < rows.len() && is_word_row(#[trigger] rows[i]) && words_of_rows(rows)[k]
                == word_of_row(rows[i]),
    decreases rows.len(),
{
    let head = rows.drop_last();
    if is_word_row(rows.last()) && k == words_of_rows(head).len() {
        assert(is_word_row(rows[rows.len() - 1]));
    } else {
        lemma_words_come_from_word_rows(head, k);
        let i = choose|i: int|
            0 <= i < head.len() && is_word_row(#[trigger] head[i]) && words_of_rows(head)[k]
                == word_of_row(head[i]);
        assert(rows[i] == head[i]);
    }
}

fn column_number(col: &Vec<char>) -> (r: u32)
    ensures
        r == number_or_zero(col@),
{
    match parse_u32_chars(col) {
        Some(v) => v,
        None => 0,
    }
}

/// Reads the engine's table of recognized words.
pub fn parse_tsv_output(tsv: &str) -> (words: Vec<OcrWordResult>)
    ensures
        words_of(words@) == parse_tsv(tsv@),
{
    let chars = chars_of(tsv);
    let rows = lines_of(&chars);
    let mut words: Vec<OcrWordResult> = Vec::new();
    if rows.len() == 0 {
        assert(words_of(words@) =~= parse_tsv(tsv@));
        return words;
    }
    let mut i: usize = 1;
    assert(views(rows@).subrange(1, 1) =~= Seq::<Seq<char>>::empty());
    assert(words_of(words@) =~= Seq::<Word>::empty());
    while i < rows.len()
        invariant
            1 <= i <= rows.len(),
            views(rows@) == lines(tsv@),
            words_of(words@) == words_of_rows(views(rows@).subrange(1, i as int)),
        decreases rows.len() - i,
    {
        let cols = split_chars(&rows[i], '\t');
        proof {
            let done = views(rows@).subrange(1, i + 1);
            assert(done.drop_last() =~= views(rows@).subrange(1, i as int));
            assert(done.last() == rows@[i as int]@);
            assert(views(cols@) == columns(rows@[i as int]@));
        }
        if cols.len() >= 12 && chars_are(&cols[0], "5") && cols[11].len() > 0 {
            let word = OcrWordResult {
                text: string_of(&cols[11]),
                confidence: string_of(&cols[10]),
                bounding_box: Some(
                    BoundingBox {
                        left: column_number(&cols[6]),
                        top: column_number(&cols[7]),
                        width: column_number(&cols[8]),
                        height: column_number(&cols[9]),
                    },
                ),
            };
            proof {
                assert(word@ == word_of_row(rows@[i as int]@));
                assert(words_of(words@.push(word)) =~= words_of(words@).push(word@));
            }
            words.push(word);
        }
        i += 1;
    }
    assert(views(rows@).subrange(1, rows.len() as int) =~= views(rows@).skip(1));
    words
}

// ---------------------------------------------------------------------------
// Language detection
// ---------------------------------------------------------------------------

/// What `whatlang::detect` returns for a text: the name of the language it
/// settles on and the bit pattern of its confidence, or `None` where it
/// settles on none.
pub uninterp spec fn whatlang_detect(text: Seq<char>) -> Option<(Seq<char>, u64)>;

/// The mathematical content of what the detector hands back.
pub open spec fn found_of(r: Option<(String, u64)>) -> Option<(Seq<char>, u64)> {
    match r {
        Some(found) => Some((found.0@, found.1)),
        None => None,
    }
}

/// `whatlang::detect`: the language of `text` as that crate judges it. The
/// language is handed on by the name that its `Debug` form writes, the
/// confidence, an `f64`, by its IEEE 754 bit pattern. Nothing is claimed
/// of the outcome but that it depends on the text alone.
#[verifier::external_body]
fn whatlang_detect_text(text: &str) -> (r: Option<(String, u64)>)
    ensures
        found_of(r) == whatlang_detect(text@),
{
    match whatlang::detect(text) {
        Some(info) => Some((format!("{:?}", info.lang()), info.confidence().to_bits())),
        None => None,
    }
}

/// The language that a text is written in.
#[derive(Debug, Clone, PartialEq, Eq)]
pub struct LanguageDetection {
    /// The name of the language.
    pub language: String,
    /// How sure the detection is, a value between 0 and 1, as the bit
    /// pattern of an IEEE 754 double.
    pub confidence: u64,
}

/// The mathematical content of a detection.
pub open spec fn detection_of(found: Option<LanguageDetection>) -> Option<(Seq<char>, u64)> {
    match found {
        Some(d) => Some((d.language@, d.confidence)),
        None => None,
    }
}

/// The language of a text: none for the empty text, else what
/// `whatlang_detect` gives.
pub open spec fn detected_language(text: Seq<char>) -> Option<(Seq<char>, u64)> {
    if text.len() == 0 {
        None
    } else {
        whatlang_detect(text)
    }
}

/// Detects the language of `text`. The empty text has none; for any other
/// text the detector decides.
pub fn detect_language(text: &str) -> (r: Option<LanguageDetection>)
    ensures
        detection_of(r) == detected_language(text@),
{
    if text.unicode_len() == 0 {
        None
    } else {
        match whatlang_detect_text(text) {
            Some(found) => Some(LanguageDetection { language: found.0, confidence: found.1 }),
            None => None,
        }
    }
}

// ---------------------------------------------------------------------------
// Analysis of one image
// ---------------------------------------------------------------------------

/// The words of one image together with the language they are written in.
#[derive(Debug, Clone)]
pub struct OcrAnalysisResult {
    /// The words, in the order in which the engine reported them.
    pub words: Vec<OcrWordResult>,
    /// The name of the detected language.
    pub detected_language: Option<String>,
    /// The confidence of the detection, a value between 0 and 1, as the bit
    /// pattern of an IEEE 754 double.
    pub language_confidence: Option<u64>,
}

/// The mathematical content of an `OcrAnalysisResult`.
pub struct Analysis {
    pub words: Seq<Word>,
    pub detected_language: Option<Seq<char>>,
    pub language_confidence: Option<u64>,
}

impl View for OcrAnalysisResult {
    type V = Analysis;

    open spec fn view(&self) -> Analysis {
        Analysis {
            words: words_of(self.words@),
            detected_language: match self.detected_language {
                Some(name) => Some(name@),
                None => None,
            },
            language_confidence: self.language_confidence,
        }
    }
}

/// The texts of `words`, in order.
pub open spec fn word_texts(words: Seq<Word>) -> Seq<Seq<char>> {
    Seq::new(words.len(), |i: int| words[i].text)
}

/// The words joined by single spaces.
pub open spec fn full_text(words: Seq<Word>) -> Seq<char> {
    join(word_texts(words), " "@)
}

/// The analysis made of `words` and of the outcome of a language detection.
pub open spec fn analysis_of(words: Seq<Word>, detection: Option<(Seq<char>, u64)>) -> Analysis {
    Analysis {
        words,
        detected_language: match detection {
            Some(found) => Some(found.0),
            None => None,
        },
        language_confidence: match detection {
            Some(found) => Some(found.1),
            None => None,
        },
    }
}

/// The analysis of the engine's table `tsv`: its words, and the language of
/// their joined text.
pub open spec fn analysis_of_tsv(tsv: Seq<char>) -> Analysis {
    analysis_of(parse_tsv(tsv), detected_language(full_text(parse_tsv(tsv))))
}

/// The words joined by single spaces.
pub fn joined_text(words: &Vec<OcrWordResult>) -> (r: String)
    ensures
        r@ == full_text(words_of(words@)),
{
    let mut out: Vec<char> = Vec::new();
    let mut i: usize = 0;
    let ghost all = word_texts(words_of(words@));
    while i < words.len()
        invariant
            i <= words.len(),
            all == word_texts(words_of(words@)),
            out@ == join(all.take(i as int), " "@),
        decreases words.len() - i,
    {
        proof {
            let next = all.take(i + 1);
            assert(next.drop_last() =~= all.take(i as int));
            assert(next.last() == words@[i as int].text@);
        }
        if i > 0 {
            append_str(&mut out, " ");
        }
        append_str(&mut out, words[i].text.as_str());
        i += 1;
    }
    assert(all.take(words.len() as int) =~= all);
    string_of(&out)
}

/// Puts the words of an image and the outcome of a language detection
/// together.
pub fn build_analysis(words: Vec<OcrWordResult>, detection: Option<LanguageDetection>) -> (r:
    OcrAnalysisResult)
    ensures
        r@ == analysis_of(words_of(words@), detection_of(detection)),
{
    match detection {
        Some(found) => OcrAnalysisResult {
            words,
            detected_language: Some(found.language),
            language_confidence: Some(found.confidence),
        },
        None => OcrAnalysisResult { words, detected_language: None, language_confidence: None },
    }
}

/// Reads the engine's table of words and detects the language of the text.
pub fn analyze_tsv(tsv: &str) -> (r: OcrAnalysisResult)
    ensures
        r@ == analysis_of_tsv(tsv@),
{
    let words = parse_tsv_output(tsv);
    let text = joined_text(&words);
    let detection = detect_language(text.as_str());
    build_analysis(words, detection)
}

// ---------------------------------------------------------------------------
// Languages that the engine has
// ---------------------------------------------------------------------------

/// The rows without the white space around them, those that are then empty
/// left out.
pub open spec fn trimmed_rows(rows: Seq<Seq<char>>) -> Seq<Seq<char>>
    decreases rows.len(),
{
    if rows.len() == 0 {
        Seq::<Seq<char>>::empty()
    } else if trim(rows.last()).len() > 0 {
        trimmed_rows(rows.drop_last()).push(trim(rows.last()))
    } else {
        trimmed_rows(rows.drop_last())
    }
}

/// The languages that the engine's listing names: its lines below the
/// first, trimmed, empty ones left out.
pub open spec fn listed_languages(listing: Seq<char>) -> Seq<Seq<char>> {
    trimmed_rows(data_rows(listing))
}

/// Those of `requested` that are not among `available`, in order.
pub open spec fn missing_from(requested: Seq<Seq<char>>, available: Seq<Seq<char>>) -> Seq<
    Seq<char>,
>
    decreases requested.len(),
{
    if requested.len() == 0 {
        Seq::<Seq<char>>::empty()
    } else if available.contains(requested.last()) {
        missing_from(requested.drop_last(), available)
    } else {
        missing_from(requested.drop_last(), available).push(requested.last())
    }
}

/// The requested languages that the engine lacks; a request names its
/// languages with `+` between them.
pub open spec fn missing_languages(requested: Seq<char>, available: Seq<Seq<char>>) -> Seq<
    Seq<char>,
> {
    missing_from(split(requested, '+'), available)
}

fn is_listed(available: &Vec<String>, name: &Vec<char>) -> (r: bool)
    ensures
        r == texts(available@).contains(name@),
{
    let mut i: usize = 0;
    while i < available.len()
        invariant
            i <= available.len(),
            forall|j: int| 0 <= j < i ==> texts(available@)[j] != name@,
        decreases available.len() - i,
    {
        if chars_are(name, available[i].as_str()) {
            assert(texts(available@)[i as int] == name@);
            return true;
        }
        i += 1;
    }
    false
}

// ---------------------------------------------------------------------------
// The engine
// ---------------------------------------------------------------------------

/// The name of the engine's program.
pub fn engine_program() -> (name: &'static str)
    ensures
        name@ == "tesseract"@,
{
    "tesseract"
}

/// How the engine is to be run.
#[derive(Debug, Clone)]
pub struct OcrEngine {
    language: String,
    dpi: u32,
    psm: u8,
    oem: u8,
    verbose: bool,
}

/// The mathematical content of an `OcrEngine`.
pub struct EngineConfig {
    pub language: Seq<char>,
    pub dpi: u32,
    pub psm: u8,
    pub oem: u8,
    pub verbose: bool,
}

impl View for OcrEngine {
    type V = EngineConfig;

    closed spec fn view(&self) -> EngineConfig {
        EngineConfig {
            language: self.language@,
            dpi: self.dpi,
            psm: self.psm,
            oem: self.oem,
            verbose: self.verbose,
        }
    }
}

/// The arguments with which the engine recognizes the plain text of an
/// image.
pub open spec fn text_arguments(config: EngineConfig, image_path: Seq<char>) -> Seq<Seq<char>> {
    seq![
        image_path,
        "stdout"@,
        "-l"@,
        config.language,
        "--dpi"@,
        decimal(config.dpi as nat),
        "--psm"@,
        decimal(config.psm as nat),
        "--oem"@,
        decimal(config.oem as nat),
    ]
}

/// The arguments with which the engine writes its table of words for an
/// image.
pub open spec fn tsv_arguments(config: EngineConfig, image_path: Seq<char>) -> Seq<Seq<char>> {
    seq![
        image_path,
        "stdout"@,
        "-l"@,
        config.language,
        "--dpi"@,
        decimal(config.dpi as nat),
        "tsv"@,
    ]
}

impl OcrEngine {
    /// An engine that is run with the given language request, resolution,
    /// page segmentation mode and engine mode.
    pub fn with_config(language: &str, dpi: u32, psm: u8, oem: u8, verbose: bool) -> (r: Result<
        OcrEngine,
        OcrError,
    >)
        ensures
            r matches Ok(engine) && engine@ == (EngineConfig {
                language: language@,
                dpi,
                psm,
                oem,
                verbose,
            }),
    {
        Ok(OcrEngine { language: to_string(language), dpi, psm, oem, verbose })
    }

    /// The language request.
    pub fn language(&self) -> (r: &str)
        ensures
            r@ == self@.language,
    {
        self.language.as_str()
    }

    /// The resolution, in dots per inch.
    pub fn dpi(&self) -> (r: u32)
        ensures
            r == self@.dpi,
    {
        self.dpi
    }

    /// The page segmentation mode.
    pub fn psm(&self) -> (r: u8)
        ensures
            r == self@.psm,
    {
        self.psm
    }

    /// The engine mode.
    pub fn oem(&self) -> (r: u8)
        ensures
            r == self@.oem,
    {
        self.oem
    }

    /// Whether the engine's diagnostics are shown.
    pub fn verbose(&self) -> (r: bool)
        ensures
            r == self@.verbose,
    {
        self.verbose
    }

    /// The arguments for recognizing the plain text of the image at
    /// `image_path`.
    pub fn text_command(&self, image_path: &str) -> (args: Vec<String>)
        ensures
            texts(args@) == text_arguments(self@, image_path@),
    {
        let mut args: Vec<String> = Vec::new();
        assert(texts(args@) =~= Seq::<Seq<char>>::empty());
        push_text(&mut args, image_path);
        push_text(&mut args, "stdout");
        push_text(&mut args, "-l");
        push_text(&mut args, self.language.as_str());
        push_text(&mut args, "--dpi");
        push_decimal_text(&mut args, self.dpi as u128);
        push_text(&mut args, "--psm");
        push_decimal_text(&mut args, self.psm as u128);
        push_text(&mut args, "--oem");
        push_decimal_text(&mut args, self.oem as u128);
        assert(texts(args@) =~= text_arguments(self@, image_path@));
        args
    }

    /// The arguments for writing the table of words of the image at
    /// `image_path`.
    pub fn tsv_command(&self, image_path: &str) -> (args: Vec<String>)
        ensures
            texts(args@) == tsv_arguments(self@, image_path@),
    {
        let mut args: Vec<String> = Vec::new();
        assert(texts(args@) =~= Seq::<Seq<char>>::empty());
        push_text(&mut args, image_path);
        push_text(&mut args, "stdout");
        push_text(&mut args, "-l");
        push_text(&mut args, self.language.as_str());
        push_text(&mut args, "--dpi");
        push_decimal_text(&mut args, self.dpi as u128);
        push_text(&mut args, "tsv");
        assert(texts(args@) =~= tsv_arguments(self@, image_path@));
        args
    }

    /// The text that a run for plain text recognized: the engine's output
    /// without the white space around it. A run that failed gives
    /// `EngineFailed` with the engine's diagnostics, output that is not
    /// UTF-8 gives `InvalidUtf8`.
    pub fn extract_text_from_image(&self, output: &CommandOutput) -> (r: Result<String, OcrError>)
        ensures
            !output.success ==> (r matches Err(OcrError::EngineFailed(e)) && e@ == output.stderr@),
            output.success && utf8_text(output.stdout@) is None ==> r matches Err(
                OcrError::InvalidUtf8,
            ),
            output.success && utf8_text(output.stdout@) is Some ==> (r matches Ok(text) && text@
                == trim(utf8_text(output.stdout@)->0)),
    {
        if !output.success {
            return Err(OcrError::EngineFailed(output.stderr.clone()));
        }
        match decode_text(&output.stdout) {
            Some(text) => {
                let chars = chars_of(text.as_str());
                Ok(string_of(&trim_chars(&chars)))
            },
            None => Err(OcrError::InvalidUtf8),
        }
    }

    /// The analysis that a run for the table of words gives. A run that
    /// failed gives `TsvFailed` with the engine's diagnostics, output that
    /// is not UTF-8 gives `InvalidUtf8`.
    pub fn extract_with_confidence(&self, output: &CommandOutput) -> (r: Result<
        OcrAnalysisResult,
        OcrError,
    >)
        ensures
            !output.success ==> (r matches Err(OcrError::TsvFailed(e)) && e@ == output.stderr@),
            output.success && utf8_text(output.stdout@) is None ==> r matches Err(
                OcrError::InvalidUtf8,
            ),
            output.success && utf8_text(output.stdout@) is Some ==> (r matches Ok(analysis)
                && analysis@ == analysis_of_tsv(utf8_text(output.stdout@)->0)),
    {
        if !output.success {
            return Err(OcrError::TsvFailed(output.stderr.clone()));
        }
        match decode_text(&output.stdout) {
            Some(tsv) => Ok(analyze_tsv(tsv.as_str())),
            None => Err(OcrError::InvalidUtf8),
        }
    }

    /// The arguments with which the engine lists its languages.
    pub fn list_languages_command() -> (args: Vec<String>)
        ensures
            texts(args@) == seq!["--list-langs"@],
    {
        let mut args: Vec<String> = Vec::new();
        assert(texts(args@) =~= Seq::<Seq<char>>::empty());
        push_text(&mut args, "--list-langs");
        assert(texts(args@) =~= seq!["--list-langs"@]);
        args
    }

    /// The languages that a listing run names. A run that failed gives
    /// `LanguagesUnavailable`, output that is not UTF-8 gives `InvalidUtf8`.
    pub fn check_available_languages(output: &CommandOutput) -> (r: Result<Vec<String>, OcrError>)
        ensures
            !output.success ==> r matches Err(OcrError::LanguagesUnavailable),
            output.success && utf8_text(output.stdout@) is None ==> r matches Err(
                OcrError::InvalidUtf8,
            ),
            output.success && utf8_text(output.stdout@) is Some ==> (r matches Ok(languages)
                && texts(languages@) == listed_languages(utf8_text(output.stdout@)->0)),
    {
        if !output.success {
            return Err(OcrError::LanguagesUnavailable);
        }
        let listing = match decode_text(&output.stdout) {
            Some(listing) => listing,
            None => {
                return Err(OcrError::InvalidUtf8);
            },
        };
        let chars = chars_of(listing.as_str());
        let rows = lines_of(&chars);
        let mut languages: Vec<String> = Vec::new();
        if rows.len() == 0 {
            assert(texts(languages@) =~= listed_languages(listing@));
            return Ok(languages);
        }
        let mut i: usize = 1;
        assert(views(rows@).subrange(1, 1) =~= Seq::<Seq<char>>::empty());
        assert(texts(languages@) =~= Seq::<Seq<char>>::empty());
        while i < rows.len()
            invariant
                1 <= i <= rows.len(),
                views(rows@) == lines(listing@),
                texts(languages@) == trimmed_rows(views(rows@).subrange(1, i as int)),
            decreases rows.len() - i,
        {
            let name = trim_chars(&rows[i]);
            proof {
                let done = views(rows@).subrange(1, i + 1);
                assert(done.drop_last() =~= views(rows@).subrange(1, i as int));
                assert(done.last() == rows@[i as int]@);
            }
            if name.len() > 0 {
                let owned = string_of(&name);
                proof {
                    lemma_texts_push(languages@, owned);
                }
                languages.push(owned);
            }
            i += 1;
        }
        assert(views(rows@).subrange(1, rows.len() as int) =~= views(rows@).skip(1));
        Ok(languages)
    }

    /// Checks a language request against the languages that the engine
    /// has. The request is in order exactly when none of its languages is
    /// missing; otherwise the error names the missing ones.
    pub fn validate_languages(requested: &str, available: &Vec<String>) -> (r: Result<
        (),
        OcrError,
    >)
        ensures
            missing_languages(requested@, texts(available@)).len() == 0 ==> r is Ok,
            missing_languages(requested@, texts(available@)).len() > 0 ==> (r matches Err(
                OcrError::MissingLanguages(missing),
            ) && texts(missing@) == missing_languages(requested@, texts(available@))),
    {
        let chars = chars_of(requested);
        let parts = split_chars(&chars, '+');
        let mut missing: Vec<String> = Vec::new();
        let mut i: usize = 0;
        assert(views(parts@).take(0) =~= Seq::<Seq<char>>::empty());
        assert(texts(missing@) =~= Seq::<Seq<char>>::empty());
        while i < parts.len()
            invariant
                i <= parts.len(),
                texts(missing@) == missing_from(views(parts@).take(i as int), texts(available@)),
            decreases parts.len() - i,
        {
            proof {
                let done = views(parts@).take(i + 1);
                assert(done.drop_last() =~= views(parts@).take(i as int));
                assert(done.last() == parts@[i as int]@);
            }
            if !is_listed(available, &parts[i]) {
                let owned = string_of(&parts[i]);
                proof {
                    lemma_texts_push(missing@, owned);
                }
                missing.push(owned);
            }
            i += 1;
        }
        assert(views(parts@).take(parts.len() as int) =~= views(parts@));
        if missing.len() == 0 {
            Ok(())
        } else {
            Err(OcrError::MissingLanguages(missing))
        }
    }
}

} // verus!
