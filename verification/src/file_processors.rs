//! Extraction of text from one file, by kind.
//!
//! Reading a file and running the OCR engine are the caller's work. The
//! library decides what is to be done next and what the result is:
//! `FileProcessor::process_file` takes the path and the latest event and
//! answers with the next action, until the action is `Finish`.

use vstd::prelude::*;
use crate::text::{is_blank, chars_of, chars_are_blank, string_of, append_str};
use crate::numbers::{decimal, push_decimal};
use crate::file_type::{FileType, file_type_of};
use crate::ocr_engine::OcrError;
use crate::documents::{Document, Workbook, word_count, count_words, estimated_pages, estimate_pages};

verus! {

// ---------------------------------------------------------------------------
// Results and failures
// ---------------------------------------------------------------------------

/// What was extracted from one file.
#[derive(Debug, Clone)]
pub struct ProcessResult {
    pub file_type: FileType,
    pub page_count: usize,
    pub text: String,
}

/// The mathematical content of a `ProcessResult`.
pub struct Extracted {
    pub file_type: FileType,
    pub page_count: nat,
    pub text: Seq<char>,
}

impl View for ProcessResult {
    type V = Extracted;

    open spec fn view(&self) -> Extracted {
        Extracted {
            file_type: self.file_type,
            page_count: self.page_count as nat,
            text: self.text@,
        }
    }
}

/// Why nothing was extracted from a file.
#[derive(Debug, Clone)]
pub enum ProcessError {
    /// The OCR engine failed; holds its message.
    Ocr(String),
    /// The file could not be read; holds the reason.
    Read(String),
    /// The PDF container could not be parsed; holds the reason.
    Pdf(String),
    /// The word-processing container could not be parsed; holds the reason.
    Docx(String),
    /// The workbook could not be opened; holds the reason.
    Workbook(String),
    /// The file is an archive.
    ArchiveNotImplemented,
    /// The file is of no supported kind.
    Unsupported,
    /// The event does not belong to the kind of the file.
    UnexpectedEvent,
}

/// The mathematical content of a `ProcessError`.
pub enum Failure {
    Ocr(Seq<char>),
    Read(Seq<char>),
    Pdf(Seq<char>),
    Docx(Seq<char>),
    Workbook(Seq<char>),
    ArchiveNotImplemented,
    Unsupported,
    UnexpectedEvent,
}

impl View for ProcessError {
    type V = Failure;

    open spec fn view(&self) -> Failure {
        match self {
            ProcessError::Ocr(e) => Failure::Ocr(e@),
            ProcessError::Read(e) => Failure::Read(e@),
            ProcessError::Pdf(e) => Failure::Pdf(e@),
            ProcessError::Docx(e) => Failure::Docx(e@),
            ProcessError::Workbook(e) => Failure::Workbook(e@),
            ProcessError::ArchiveNotImplemented => Failure::ArchiveNotImplemented,
            ProcessError::Unsupported => Failure::Unsupported,
            ProcessError::UnexpectedEvent => Failure::UnexpectedEvent,
        }
    }
}

impl Failure {
    /// The message of the failure.
    pub open spec fn message(self) -> Seq<char> {
        match self {
            Failure::Ocr(e) => "OCR error: "@ + e,
            Failure::Read(e) => e,
            Failure::Pdf(e) => e,
            Failure::Docx(e) => "Failed to parse DOCX: "@ + e,
            Failure::Workbook(e) => e,
            Failure::ArchiveNotImplemented => "Archive processing not implemented in this version"@,
            Failure::Unsupported => "Unsupported file format"@,
            Failure::UnexpectedEvent => "Unexpected event for this kind of file"@,
        }
    }
}

impl ProcessError {
    /// The message of the error.
    pub fn message(&self) -> (s: String)
        ensures
            s@ == self@.message(),
    {
        let mut out: Vec<char> = Vec::new();
        match self {
            ProcessError::Ocr(e) => {
                append_str(&mut out, "OCR error: ");
                append_str(&mut out, e.as_str());
            },
            ProcessError::Read(e) => {
                append_str(&mut out, e.as_str());
            },
            ProcessError::Pdf(e) => {
                append_str(&mut out, e.as_str());
            },
            ProcessError::Docx(e) => {
                append_str(&mut out, "Failed to parse DOCX: ");
                append_str(&mut out, e.as_str());
            },
            ProcessError::Workbook(e) => {
                append_str(&mut out, e.as_str());
            },
            ProcessError::ArchiveNotImplemented => {
                append_str(&mut out, "Archive processing not implemented in this version");
            },
            ProcessError::Unsupported => {
                append_str(&mut out, "Unsupported file format");
            },
            ProcessError::UnexpectedEvent => {
                append_str(&mut out, "Unexpected event for this kind of file");
            },
        }
        assert(out@ =~= self@.message());
        string_of(&out)
    }
}

/// The contents of the elements of `v`, in order.
pub open spec fn results_of(v: Seq<ProcessResult>) -> Seq<Extracted> {
    Seq::new(v.len(), |i: int| v[i]@)
}

/// The mathematical content of the outcome of processing one file.
pub open spec fn outcome_of(r: Result<Vec<ProcessResult>, ProcessError>) -> Result<
    Seq<Extracted>,
    Failure,
> {
    match r {
        Ok(results) => Ok(results_of(results@)),
        Err(e) => Err(e@),
    }
}

/// The outcome that consists of one result.
pub open spec fn single(file_type: FileType, page_count: nat, text: Seq<char>) -> Result<
    Seq<Extracted>,
    Failure,
> {
    Ok(seq![Extracted { file_type, page_count, text }])
}

fn one_result(file_type: FileType, page_count: usize, text: String) -> (r: Result<
    Vec<ProcessResult>,
    ProcessError,
>)
    ensures
        outcome_of(r) == single(file_type, page_count as nat, text@),
{
    let mut results: Vec<ProcessResult> = Vec::new();
    results.push(ProcessResult { file_type, page_count, text });
    assert(results_of(results@) =~= seq![
        Extracted { file_type, page_count: page_count as nat, text: text@ },
    ]);
    Ok(results)
}

// ---------------------------------------------------------------------------
// Events and actions
// ---------------------------------------------------------------------------

/// The text recognized in one image that is embedded in a page of a PDF.
pub struct PageImageText {
    /// The index of the page, counted from zero.
    pub page: usize,
    /// The recognized text, or `None` where the image could not be read or
    /// the engine failed on it.
    pub text: Option<String>,
}

/// What has happened to a file so far.
pub enum FileEvent {
    /// Nothing yet.
    Start,
    /// The file could not be read.
    ReadFailed(String),
    /// The OCR engine was run on the image.
    ImageRecognized(Result<String, OcrError>),
    /// The PDF was read: the text that direct extraction gave, `None` where
    /// it failed, and the number of pages of the container, `None` where
    /// the container cannot be read.
    PdfRead { direct_text: Option<String>, page_count: Option<usize> },
    /// The OCR engine was run on the images embedded in the pages of the
    /// PDF, or the container could not be parsed.
    PdfImagesRecognized { images: Result<Vec<PageImageText>, String>, page_count: Option<usize> },
    /// The word-processing container was parsed, or could not be.
    DocxRead(Result<Document, String>),
    /// The workbook was opened, or could not be.
    WorkbookRead(Result<Workbook, String>),
}

/// What is to be done next with a file.
pub enum FileAction {
    /// Run the OCR engine on the file, an image.
    RecognizeImage,
    /// Read the PDF, extract its text directly and count its pages.
    ReadPdf,
    /// Run the OCR engine on the images embedded in the pages of the PDF.
    RecognizePdfImages,
    /// Parse the word-processing container.
    ReadDocx,
    /// Open the workbook.
    ReadWorkbook,
    /// Nothing more: this is the outcome.
    Finish(Result<Vec<ProcessResult>, ProcessError>),
}

/// The mathematical content of a `FileAction`.
pub enum Action {
    RecognizeImage,
    ReadPdf,
    RecognizePdfImages,
    ReadDocx,
    ReadWorkbook,
    Finish(Result<Seq<Extracted>, Failure>),
}

impl View for FileAction {
    type V = Action;

    open spec fn view(&self) -> Action {
        match self {
            FileAction::RecognizeImage => Action::RecognizeImage,
            FileAction::ReadPdf => Action::ReadPdf,
            FileAction::RecognizePdfImages => Action::RecognizePdfImages,
            FileAction::ReadDocx => Action::ReadDocx,
            FileAction::ReadWorkbook => Action::ReadWorkbook,
            FileAction::Finish(r) => Action::Finish(outcome_of(*r)),
        }
    }
}

// ---------------------------------------------------------------------------
// What each kind of file gives
// ---------------------------------------------------------------------------

/// The least number of characters above which directly extracted text is
/// taken for the text of a PDF.
pub const MIN_DIRECT_TEXT_CHARS: usize = 100;

/// Whether the text that direct extraction gave is accepted: there is one,
/// it is not blank, and it is longer than a hundred characters.
pub open spec fn direct_text_accepted(direct: Option<Seq<char>>) -> bool {
    direct matches Some(text) && !is_blank(text) && text.len() > MIN_DIRECT_TEXT_CHARS
}

/// The page count of a PDF: that of its container, at least one, and one
/// where the container cannot be read.
pub open spec fn pdf_pages(page_count: Option<usize>) -> nat {
    match page_count {
        Some(n) => if n == 0 {
            1
        } else {
            n as nat
        },
        None => 1,
    }
}

/// The line that marks the text of the page with index `page`.
pub open spec fn page_marker(page: usize) -> Seq<char> {
    "\n--- Page "@ + decimal((page + 1) as nat) + " ---\n"@
}

/// What one embedded image adds to the text of a PDF: its page marker and
/// its text, or nothing where its text is missing or blank.
pub open spec fn page_image_text(image: PageImageText) -> Seq<char> {
    match image.text {
        Some(text) => if is_blank(text@) {
            Seq::<char>::empty()
        } else {
            page_marker(image.page) + text@
        },
        None => Seq::<char>::empty(),
    }
}

/// The text recognized in the embedded images of a PDF, image after image.
pub open spec fn page_images_text(images: Seq<PageImageText>) -> Seq<char>
    decreases images.len(),
{
    if images.len() == 0 {
        Seq::<char>::empty()
    } else {
        page_images_text(images.drop_last()) + page_image_text(images.last())
    }
}

/// The outcome for an image on which the OCR engine was run.
pub open spec fn image_outcome(path: Seq<char>, recognized: Result<String, OcrError>) -> Result<
    Seq<Extracted>,
    Failure,
> {
    match recognized {
        Ok(text) => single(file_type_of(path), 1, text@),
        Err(e) => Err(Failure::Ocr(e.message_text())),
    }
}

/// What follows the reading of a PDF. Accepted direct text is the outcome.
/// Without it, the embedded images are recognized if that is switched on;
/// if it is not, the outcome is an empty text.
pub open spec fn pdf_action(
    use_pdf_ocr: bool,
    direct_text: Option<String>,
    page_count: Option<usize>,
) -> Action {
    let direct = match direct_text {
        Some(text) => Some(text@),
        None => None,
    };
    if direct_text_accepted(direct) {
        Action::Finish(single(FileType::Pdf, pdf_pages(page_count), direct->0))
    } else if use_pdf_ocr {
        Action::RecognizePdfImages
    } else {
        Action::Finish(single(FileType::Pdf, pdf_pages(page_count), Seq::<char>::empty()))
    }
}

/// The outcome for a PDF whose embedded images were recognized.
pub open spec fn pdf_images_outcome(
    images: Result<Vec<PageImageText>, String>,
    page_count: Option<usize>,
) -> Result<Seq<Extracted>, Failure> {
    match images {
        Ok(images) => single(FileType::Pdf, pdf_pages(page_count), page_images_text(images@)),
        Err(e) => Err(Failure::Pdf(e@)),
    }
}

/// The outcome for a word-processing document.
pub open spec fn docx_outcome(parsed: Result<Document, String>) -> Result<Seq<Extracted>, Failure> {
    match parsed {
        Ok(document) => single(
            FileType::Docx,
            estimated_pages(word_count(document.text())),
            document.text(),
        ),
        Err(e) => Err(Failure::Docx(e@)),
    }
}

/// The outcome for a workbook.
pub open spec fn workbook_outcome(path: Seq<char>, opened: Result<Workbook, String>) -> Result<
    Seq<Extracted>,
    Failure,
> {
    match opened {
        Ok(workbook) => single(file_type_of(path), workbook.pages(), workbook.text()),
        Err(e) => Err(Failure::Workbook(e@)),
    }
}

/// The action that follows `event` for the file at `path`.
pub open spec fn action_for(use_pdf_ocr: bool, path: Seq<char>, event: FileEvent) -> Action {
    match file_type_of(path) {
        FileType::Unsupported => Action::Finish(Err(Failure::Unsupported)),
        FileType::Archive(_) => Action::Finish(Err(Failure::ArchiveNotImplemented)),
        FileType::Image(_) => match event {
            FileEvent::Start => Action::RecognizeImage,
            FileEvent::ReadFailed(e) => Action::Finish(Err(Failure::Read(e@))),
            FileEvent::ImageRecognized(recognized) => Action::Finish(
                image_outcome(path, recognized),
            ),
            _ => Action::Finish(Err(Failure::UnexpectedEvent)),
        },
        FileType::Pdf => match event {
            FileEvent::Start => Action::ReadPdf,
            FileEvent::ReadFailed(e) => Action::Finish(Err(Failure::Read(e@))),
            FileEvent::PdfRead { direct_text, page_count } => pdf_action(
                use_pdf_ocr,
                direct_text,
                page_count,
            ),
            FileEvent::PdfImagesRecognized { images, page_count } => Action::Finish(
                pdf_images_outcome(images, page_count),
            ),
            _ => Action::Finish(Err(Failure::UnexpectedEvent)),
        },
        FileType::Docx => match event {
            FileEvent::Start => Action::ReadDocx,
            FileEvent::ReadFailed(e) => Action::Finish(Err(Failure::Read(e@))),
            FileEvent::DocxRead(parsed) => Action::Finish(docx_outcome(parsed)),
            _ => Action::Finish(Err(Failure::UnexpectedEvent)),
        },
        FileType::Xlsx | FileType::Xls => match event {
            FileEvent::Start => Action::ReadWorkbook,
            FileEvent::ReadFailed(e) => Action::Finish(Err(Failure::Read(e@))),
            FileEvent::WorkbookRead(opened) => Action::Finish(workbook_outcome(path, opened)),
            _ => Action::Finish(Err(Failure::UnexpectedEvent)),
        },
    }
}

/// The event of a PDF that was read with the directly extracted text
/// `direct_text`.
pub open spec fn pdf_read(direct_text: String, page_count: Option<usize>) -> FileEvent {
    FileEvent::PdfRead { direct_text: Some(direct_text), page_count }
}

/// Directly extracted text that is not blank and longer than a hundred
/// characters is the text of the PDF: the action after reading is then
/// `Finish` with that text, and never a recognition of the embedded images,
/// whether that is switched on or not.
pub proof fn lemma_accepted_direct_text_needs_no_ocr(
    use_pdf_ocr: bool,
    path: Seq<char>,
    direct_text: String,
    page_count: Option<usize>,
)
    requires
        file_type_of(path) == FileType::Pdf,
        !is_blank(direct_text@),
        direct_text@.len() > MIN_DIRECT_TEXT_CHARS,
    ensures
        action_for(use_pdf_ocr, path, pdf_read(direct_text, page_count)) == Action::Finish(
            single(FileType::Pdf, pdf_pages(page_count), direct_text@),
        ),
        action_for(use_pdf_ocr, path, pdf_read(direct_text, page_count))
            != Action::RecognizePdfImages,
{
}

/// A file of no supported kind fails before anything is read, whatever the
/// event, and so does an archive.
pub proof fn lemma_unsupported_fails_at_once(use_pdf_ocr: bool, path: Seq<char>, event: FileEvent)
    ensures
        file_type_of(path) == FileType::Unsupported ==> action_for(use_pdf_ocr, path, event)
            == Action::Finish(Err(Failure::Unsupported)),
        file_type_of(path) is Archive ==> action_for(use_pdf_ocr, path, event) == Action::Finish(
            Err(Failure::ArchiveNotImplemented),
        ),
{
}

/// Whatever was extracted has at least one page: a page count of zero is
/// left to the record of a failure.
pub proof fn lemma_success_has_pages(use_pdf_ocr: bool, path: Seq<char>, event: FileEvent)
    ensures
        action_for(use_pdf_ocr, path, event) matches Action::Finish(Ok(results)) ==> forall|
            i: int,
        | 0 <= i < results.len() ==> (#[trigger] results[i]).page_count >= 1,
{
    match action_for(use_pdf_ocr, path, event) {
        Action::Finish(Ok(results)) => {
            assert forall|i: int| 0 <= i < results.len() implies (#[trigger] results[i]).page_count
                >= 1 by {
                assert(results.len() == 1);
            }
        },
        _ => {},
    }
}

// ---------------------------------------------------------------------------
// The processor
// ---------------------------------------------------------------------------

/// Extracts text from files of every supported kind.
pub struct FileProcessor {
    use_pdf_ocr: bool,
}

fn pdf_page_count(page_count: Option<usize>) -> (n: usize)
    ensures
        n == pdf_pages(page_count),
        n >= 1,
{
    match page_count {
        Some(n) => if n == 0 {
            1
        } else {
            n
        },
        None => 1,
    }
}

impl FileProcessor {
    /// Whether the images embedded in a PDF are recognized where direct
    /// extraction gives no accepted text.
    pub closed spec fn uses_pdf_ocr(&self) -> bool {
        self.use_pdf_ocr
    }

    /// A processor that recognizes the images embedded in a PDF if
    /// `use_pdf_ocr` says so.
    pub fn new(use_pdf_ocr: bool) -> (r: Self)
        ensures
            r.uses_pdf_ocr() == use_pdf_ocr,
    {
        FileProcessor { use_pdf_ocr }
    }

    /// The action that follows `event` for the file at `path`.
    pub fn process_file(&self, path: &str, event: FileEvent) -> (action: FileAction)
        ensures
            action@ == action_for(self.uses_pdf_ocr(), path@, event),
    {
        match FileType::from_path(path) {
            FileType::Unsupported => FileAction::Finish(Err(ProcessError::Unsupported)),
            FileType::Archive(_) => FileAction::Finish(self.process_archive(path)),
            FileType::Image(_) => match event {
                FileEvent::Start => FileAction::RecognizeImage,
                FileEvent::ReadFailed(e) => FileAction::Finish(Err(ProcessError::Read(e))),
                FileEvent::ImageRecognized(recognized) => FileAction::Finish(
                    self.process_image(path, recognized),
                ),
                _ => FileAction::Finish(Err(ProcessError::UnexpectedEvent)),
            },
            FileType::Pdf => match event {
                FileEvent::Start => FileAction::ReadPdf,
                FileEvent::ReadFailed(e) => FileAction::Finish(Err(ProcessError::Read(e))),
                FileEvent::PdfRead { direct_text, page_count } => self.process_pdf(
                    direct_text,
                    page_count,
                ),
                FileEvent::PdfImagesRecognized { images, page_count } => FileAction::Finish(
                    self.process_pdf_images(images, page_count),
                ),
                _ => FileAction::Finish(Err(ProcessError::UnexpectedEvent)),
            },
            FileType::Docx => match event {
                FileEvent::Start => FileAction::ReadDocx,
                FileEvent::ReadFailed(e) => FileAction::Finish(Err(ProcessError::Read(e))),
                FileEvent::DocxRead(parsed) => FileAction::Finish(self.process_docx(parsed)),
                _ => FileAction::Finish(Err(ProcessError::UnexpectedEvent)),
            },
            FileType::Xlsx | FileType::Xls => match event {
                FileEvent::Start => FileAction::ReadWorkbook,
                FileEvent::ReadFailed(e) => FileAction::Finish(Err(ProcessError::Read(e))),
                FileEvent::WorkbookRead(opened) => FileAction::Finish(
                    self.process_excel(path, opened),
                ),
                _ => FileAction::Finish(Err(ProcessError::UnexpectedEvent)),
            },
        }
    }

    /// The outcome for the image at `path`, given what the OCR engine made
    /// of it: one result of one page with the recognized text, or the
    /// engine's failure.
    pub fn process_image(&self, path: &str, recognized: Result<String, OcrError>) -> (r: Result<
        Vec<ProcessResult>,
        ProcessError,
    >)
        ensures
            outcome_of(r) == image_outcome(path@, recognized),
    {
        match recognized {
            Ok(text) => one_result(FileType::from_path(path), 1, text),
            Err(e) => Err(ProcessError::Ocr(e.message())),
        }
    }

    /// What follows the reading of a PDF, given the text that direct
    /// extraction gave and the page count of the container.
    pub fn process_pdf(&self, direct_text: Option<String>, page_count: Option<usize>) -> (action:
        FileAction)
        ensures
            action@ == pdf_action(self.uses_pdf_ocr(), direct_text, page_count),
    {
        let pages = pdf_page_count(page_count);
        match direct_text {
            Some(text) => {
                let chars = chars_of(text.as_str());
                if !chars_are_blank(&chars) && chars.len() > MIN_DIRECT_TEXT_CHARS {
                    return FileAction::Finish(one_result(FileType::Pdf, pages, text));
                }
            },
            None => {},
        }
        if self.use_pdf_ocr {
            FileAction::RecognizePdfImages
        } else {
            FileAction::Finish(one_result(FileType::Pdf, pages, String::new()))
        }
    }

    /// The text recognized in the images embedded in the pages of a PDF:
    /// for each image with a text that is not blank, the marker of its page
    /// and then the text.
    pub fn extract_text_from_pdf_with_ocr(&self, images: &Vec<PageImageText>) -> (text: String)
        ensures
            text@ == page_images_text(images@),
    {
        let mut out: Vec<char> = Vec::new();
        let mut i: usize = 0;
        assert(out@ =~= page_images_text(images@.take(0)));
        while i < images.len()
            invariant
                i <= images.len(),
                out@ == page_images_text(images@.take(i as int)),
            decreases images.len() - i,
        {
            proof {
                let next = images@.take(i + 1);
                assert(next.drop_last() =~= images@.take(i as int));
                assert(next.last() == images@[i as int]);
            }
            let ghost before = out@;
            let image = &images[i];
            match &image.text {
                Some(text) => {
                    let chars = chars_of(text.as_str());
                    if !chars_are_blank(&chars) {
                        append_str(&mut out, "\n--- Page ");
                        push_decimal(&mut out, image.page as u128 + 1);
                        append_str(&mut out, " ---\n");
                        append_str(&mut out, text.as_str());
                        assert(out@ =~= before + (page_marker(image.page) + text@));
                    } else {
                        assert(out@ =~= before + Seq::<char>::empty());
                    }
                },
                None => {
                    assert(out@ =~= before + Seq::<char>::empty());
                },
            }
            i += 1;
        }
        assert(images@.take(images.len() as int) =~= images@);
        string_of(&out)
    }

    /// The outcome for a PDF whose embedded images were recognized, or
    /// whose container could not be parsed.
    pub fn process_pdf_images(
        &self,
        images: Result<Vec<PageImageText>, String>,
        page_count: Option<usize>,
    ) -> (r: Result<Vec<ProcessResult>, ProcessError>)
        ensures
            outcome_of(r) == pdf_images_outcome(images, page_count),
    {
        match images {
            Ok(images) => {
                let text = self.extract_text_from_pdf_with_ocr(&images);
                one_result(FileType::Pdf, pdf_page_count(page_count), text)
            },
            Err(e) => Err(ProcessError::Pdf(e)),
        }
    }

    /// The outcome for a word-processing document: its text, and one page
    /// for every five hundred words or part of it.
    pub fn process_docx(&self, parsed: Result<Document, String>) -> (r: Result<
        Vec<ProcessResult>,
        ProcessError,
    >)
        ensures
            outcome_of(r) == docx_outcome(parsed),
    {
        match parsed {
            Ok(document) => {
                let chars = document.extract_text();
                let pages = estimate_pages(count_words(&chars));
                one_result(FileType::Docx, pages, string_of(&chars))
            },
            Err(e) => Err(ProcessError::Docx(e)),
        }
    }

    /// The outcome for the workbook at `path`: the text of its sheets, and
    /// one page for each sheet.
    pub fn process_excel(&self, path: &str, opened: Result<Workbook, String>) -> (r: Result<
        Vec<ProcessResult>,
        ProcessError,
    >)
        ensures
            outcome_of(r) == workbook_outcome(path@, opened),
    {
        match opened {
            Ok(workbook) => {
                let chars = workbook.extract_text();
                one_result(FileType::from_path(path), workbook.page_count(), string_of(&chars))
            },
            Err(e) => Err(ProcessError::Workbook(e)),
        }
    }

    /// The outcome for an archive: always the failure
    /// `ArchiveNotImplemented`.
    pub fn process_archive(&self, path: &str) -> (r: Result<Vec<ProcessResult>, ProcessError>)
        ensures
            outcome_of(r) == Err::<Seq<Extracted>, Failure>(Failure::ArchiveNotImplemented),
    {
        Err(ProcessError::ArchiveNotImplemented)
    }
}

} // verus!
