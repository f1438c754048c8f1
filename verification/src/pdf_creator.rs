//! Searchable PDFs: a page that shows an image and carries the text
//! recognized in it as an invisible layer.
//!
//! There are two ways to make one. An external converter does everything
//! itself; the library builds its arguments and reads its diagnostics. The
//! native way writes a single page; the library lays the document out, as a
//! `NativePdf`, and the caller writes it down object by object.

use vstd::prelude::*;
use crate::text::{chars_of, string_of, to_string, append_str, append_chars, ascii_lowercase, texts,
    push_text, text_of};
use crate::split::{lines, lines_of, views, trim, trim_chars};
use crate::file_type::{FileType, file_type_of, file_stem, file_stem_of};
use crate::ocr_engine::CommandOutput;
use crate::pdf_text::{escape_pdf_text, escape_chars, contains_text, chars_contain_ignoring_case};

verus! {

/// The way in which a searchable PDF is made.
#[derive(Debug, Clone, Copy, PartialEq, Eq, Structural)]
pub enum PdfCreationMethod {
    /// By the external converter `ocrmypdf`.
    OcrMyPdf,
    /// By the library's own layout.
    Native,
}

/// The method that is used where `requested` is asked for: the converter
/// only where it is installed, the native way otherwise.
pub open spec fn resolved_method(requested: PdfCreationMethod, converter_installed: bool)
    -> PdfCreationMethod {
    match requested {
        PdfCreationMethod::OcrMyPdf => if converter_installed {
            PdfCreationMethod::OcrMyPdf
        } else {
            PdfCreationMethod::Native
        },
        PdfCreationMethod::Native => PdfCreationMethod::Native,
    }
}

/// The method that is used where `requested` is asked for.
pub fn resolve_method(requested: PdfCreationMethod, converter_installed: bool) -> (r:
    PdfCreationMethod)
    ensures
        r == resolved_method(requested, converter_installed),
{
    match requested {
        PdfCreationMethod::OcrMyPdf => if converter_installed {
            PdfCreationMethod::OcrMyPdf
        } else {
            PdfCreationMethod::Native
        },
        PdfCreationMethod::Native => PdfCreationMethod::Native,
    }
}

/// Whether a searchable PDF is made for a file: for an image whose text
/// was extracted without error.
pub open spec fn gets_searchable_pdf(path: Seq<char>, failed: bool) -> bool {
    file_type_of(path) is Image && !failed
}

/// Whether a searchable PDF is made for the file at `path`.
pub fn wants_searchable_pdf(path: &str, failed: bool) -> (r: bool)
    ensures
        r == gets_searchable_pdf(path@, failed),
{
    match FileType::from_path(path) {
        FileType::Image(_) => !failed,
        _ => false,
    }
}

/// The name of the PDF made for the image at `path`: the stem of its file
/// name with `.pdf` behind it.
pub open spec fn pdf_name(path: Seq<char>) -> Option<Seq<char>> {
    match file_stem(path) {
        Some(stem) => Some(stem + ".pdf"@),
        None => None,
    }
}

/// The name of the PDF made for the image at `path`, if the path has a
/// file name.
pub fn pdf_file_name(path: &str) -> (r: Option<String>)
    ensures
        text_of(r) == pdf_name(path@),
{
    match file_stem_of(path) {
        Some(stem) => {
            let mut out = chars_of(stem.as_str());
            append_str(&mut out, ".pdf");
            Some(string_of(&out))
        },
        None => None,
    }
}

// ---------------------------------------------------------------------------
// The native layout
// ---------------------------------------------------------------------------

/// The number of the catalog object.
pub const CATALOG_ID: i32 = 1;

/// The number of the page tree object.
pub const PAGE_TREE_ID: i32 = 2;

/// The number of the page object.
pub const PAGE_ID: i32 = 3;

/// The number of the image object.
pub const IMAGE_ID: i32 = 4;

/// The number of the content stream.
pub const CONTENT_ID: i32 = 5;

/// The number of the font object.
pub const FONT_ID: i32 = 6;

/// The size of the font of the text layer, in points.
pub const TEXT_FONT_SIZE: u32 = 12;

/// The distance of the text layer from the left edge of the page.
pub const TEXT_LEFT_MARGIN: i64 = 10;

/// The distance of the text layer from the top edge of the page.
pub const TEXT_TOP_MARGIN: i64 = 20;

/// The number of bits of each colour component of the image.
pub const IMAGE_BITS_PER_COMPONENT: u8 = 8;

/// One operation of the content stream of the page.
#[derive(Debug, Clone)]
pub enum ContentOp {
    /// Save the graphics state.
    SaveState,
    /// Concatenate the matrix that scales the unit square by `width` and
    /// `height`: `[width 0 0 height 0 0]`.
    Scale { width: u32, height: u32 },
    /// Paint the image of the page.
    PaintImage,
    /// Restore the graphics state.
    RestoreState,
    /// Begin a text object.
    BeginText,
    /// Set the text rendering mode to invisible.
    SetInvisibleText,
    /// Set the font of the page at the given size.
    SetFont { size: u32 },
    /// Move to the start of the next line, offset by `x` and `y`.
    NextLine { x: i64, y: i64 },
    /// Show a string; it holds the text in its escaped form.
    ShowText(String),
    /// End the text object.
    EndText,
}

/// The mathematical content of a `ContentOp`.
pub enum Op {
    SaveState,
    Scale { width: u32, height: u32 },
    PaintImage,
    RestoreState,
    BeginText,
    SetInvisibleText,
    SetFont { size: u32 },
    NextLine { x: int, y: int },
    ShowText(Seq<char>),
    EndText,
}

impl View for ContentOp {
    type V = Op;

    open spec fn view(&self) -> Op {
        match self {
            ContentOp::SaveState => Op::SaveState,
            ContentOp::Scale { width, height } => Op::Scale { width: *width, height: *height },
            ContentOp::PaintImage => Op::PaintImage,
            ContentOp::RestoreState => Op::RestoreState,
            ContentOp::BeginText => Op::BeginText,
            ContentOp::SetInvisibleText => Op::SetInvisibleText,
            ContentOp::SetFont { size } => Op::SetFont { size: *size },
            ContentOp::NextLine { x, y } => Op::NextLine { x: *x as int, y: *y as int },
            ContentOp::ShowText(s) => Op::ShowText(s@),
            ContentOp::EndText => Op::EndText,
        }
    }
}

/// The contents of the elements of `v`, in order.
pub open spec fn ops_of(v: Seq<ContentOp>) -> Seq<Op> {
    Seq::new(v.len(), |i: int| v[i]@)
}

/// A single-page PDF that shows an image over the whole page and carries
/// a text as an invisible layer.
///
/// The catalog points to the page tree, the page tree has the page as its
/// one kid. The page has the media box `[0 0 page_width page_height]`, the
/// content stream `content`, and two resources: the image, a DCT-encoded
/// picture in the device RGB colour space with eight bits for each
/// component, and the font Helvetica.
#[derive(Debug, Clone)]
pub struct NativePdf {
    pub page_width: u32,
    pub page_height: u32,
    pub image_width: u32,
    pub image_height: u32,
    pub content: Vec<ContentOp>,
}

/// The content stream of the page: the image drawn over the whole page,
/// then the text, escaped, as one invisible run near the upper left corner.
pub open spec fn page_content(width: u32, height: u32, ocr_text: Seq<char>) -> Seq<Op> {
    seq![
        Op::SaveState,
        Op::Scale { width, height },
        Op::PaintImage,
        Op::RestoreState,
        Op::BeginText,
        Op::SetInvisibleText,
        Op::SetFont { size: TEXT_FONT_SIZE },
        Op::NextLine { x: TEXT_LEFT_MARGIN as int, y: height - TEXT_TOP_MARGIN },
        Op::ShowText(escape_pdf_text(ocr_text)),
        Op::EndText,
    ]
}

impl NativePdf {
    /// Whether this is the document for an image of `width` by `height`
    /// pixels and the text `ocr_text`.
    pub open spec fn is_layout_of(&self, width: u32, height: u32, ocr_text: Seq<char>) -> bool {
        &&& self.page_width == width
        &&& self.page_height == height
        &&& self.image_width == width
        &&& self.image_height == height
        &&& ops_of(self.content@) == page_content(width, height, ocr_text)
    }
}

/// Lays out the searchable PDF for an image of `width` by `height` pixels
/// and the text recognized in it.
pub fn native_pdf(width: u32, height: u32, ocr_text: &str) -> (pdf: NativePdf)
    ensures
        pdf.is_layout_of(width, height, ocr_text@),
{
    let escaped = string_of(&escape_chars(&chars_of(ocr_text)));
    let mut content: Vec<ContentOp> = Vec::new();
    content.push(ContentOp::SaveState);
    content.push(ContentOp::Scale { width, height });
    content.push(ContentOp::PaintImage);
    content.push(ContentOp::RestoreState);
    content.push(ContentOp::BeginText);
    content.push(ContentOp::SetInvisibleText);
    content.push(ContentOp::SetFont { size: TEXT_FONT_SIZE });
    content.push(ContentOp::NextLine { x: TEXT_LEFT_MARGIN, y: height as i64 - TEXT_TOP_MARGIN });
    content.push(ContentOp::ShowText(escaped));
    content.push(ContentOp::EndText);
    assert(ops_of(content@) =~= page_content(width, height, ocr_text@));
    NativePdf { page_width: width, page_height: height, image_width: width, image_height: height, content }
}

// ---------------------------------------------------------------------------
// The external converter
// ---------------------------------------------------------------------------

/// The resolution that the converter is told the image has.
pub open spec fn converter_dpi() -> Seq<char> {
    "300"@
}

/// The name of the scratch image that is handed to the converter for the
/// image at `path`.
pub open spec fn scratch_image_name(path: Seq<char>) -> Option<Seq<char>> {
    match file_stem(path) {
        Some(stem) => Some("ocr_temp_"@ + stem + ".png"@),
        None => None,
    }
}

/// The arguments of the converter.
pub open spec fn converter_arguments(
    language: Seq<char>,
    scratch_image: Seq<char>,
    output_path: Seq<char>,
) -> Seq<Seq<char>> {
    seq!["-l"@, language, "--image-dpi"@, converter_dpi(), scratch_image, output_path]
}

/// Whether a line of diagnostics reports an error: it holds the word
/// `error`, in whatever case.
pub open spec fn reports_error(line: Seq<char>) -> bool {
    contains_text(ascii_lowercase(line), "error"@)
}

/// The last of `rows` that reports an error.
pub open spec fn last_error_line(rows: Seq<Seq<char>>) -> Option<Seq<char>>
    decreases rows.len(),
{
    if rows.len() == 0 {
        None
    } else if reports_error(rows.last()) {
        Some(rows.last())
    } else {
        last_error_line(rows.drop_last())
    }
}

/// What is reported of a converter run that failed: the last line of its
/// diagnostics that reports an error, trimmed, or no more than that it
/// failed.
pub open spec fn converter_failure(stderr: Seq<char>) -> Seq<char> {
    match last_error_line(lines(stderr)) {
        Some(line) => "ocrmypdf failed: "@ + trim(line),
        None => "ocrmypdf failed"@,
    }
}

/// What is reported of a converter run that failed with the diagnostics
/// `stderr`.
pub fn converter_failure_message(stderr: &str) -> (r: String)
    ensures
        r@ == converter_failure(stderr@),
{
    let rows = lines_of(&chars_of(stderr));
    let mut i: usize = rows.len();
    assert(views(rows@).take(i as int) =~= views(rows@));
    while i > 0
        invariant
            i <= rows.len(),
            views(rows@) == lines(stderr@),
            last_error_line(views(rows@).take(i as int)) == last_error_line(views(rows@)),
        decreases i,
    {
        proof {
            let cur = views(rows@).take(i as int);
            assert(cur.last() == rows@[i - 1]@);
            assert(cur.drop_last() =~= views(rows@).take(i - 1));
        }
        if chars_contain_ignoring_case(&rows[i - 1], "error") {
            let mut out: Vec<char> = Vec::new();
            append_str(&mut out, "ocrmypdf failed: ");
            let line = trim_chars(&rows[i - 1]);
            append_chars(&mut out, &line);
            assert(out@ =~= "ocrmypdf failed: "@ + trim(rows@[i - 1]@));
            return string_of(&out);
        }
        i -= 1;
    }
    to_string("ocrmypdf failed")
}

// ---------------------------------------------------------------------------
// Making a searchable PDF, step by step
// ---------------------------------------------------------------------------

/// What is said where the converter is not installed.
pub const CONVERTER_MISSING: &'static str = "ocrmypdf is not installed!\n\nInstallation instructions:\n• Windows: pip install ocrmypdf\n• Linux: sudo apt install ocrmypdf\n• macOS: brew install ocrmypdf\n\nOr use --pdf-method native for Rust-based PDF creation\nMore info: https://ocrmypdf.readthedocs.io/en/latest/installation.html";

/// Why no searchable PDF was made.
#[derive(Debug, Clone)]
pub enum SynthesisError {
    /// The converter is not installed.
    ConverterMissing,
    /// The converter failed; holds what is reported of it.
    ConverterFailed(String),
    /// The image path has no file name.
    NoFileName,
    /// Reading, encoding or writing failed; holds the reason.
    Failed(String),
    /// The event does not belong to the method.
    UnexpectedEvent,
}

/// The mathematical content of a `SynthesisError`.
pub enum SynthesisFailure {
    ConverterMissing,
    ConverterFailed(Seq<char>),
    NoFileName,
    Failed(Seq<char>),
    UnexpectedEvent,
}

impl View for SynthesisError {
    type V = SynthesisFailure;

    open spec fn view(&self) -> SynthesisFailure {
        match self {
            SynthesisError::ConverterMissing => SynthesisFailure::ConverterMissing,
            SynthesisError::ConverterFailed(e) => SynthesisFailure::ConverterFailed(e@),
            SynthesisError::NoFileName => SynthesisFailure::NoFileName,
            SynthesisError::Failed(e) => SynthesisFailure::Failed(e@),
            SynthesisError::UnexpectedEvent => SynthesisFailure::UnexpectedEvent,
        }
    }
}

impl SynthesisFailure {
    /// The message of the failure.
    pub open spec fn message(self) -> Seq<char> {
        match self {
            SynthesisFailure::ConverterMissing => CONVERTER_MISSING@,
            SynthesisFailure::ConverterFailed(e) => e,
            SynthesisFailure::NoFileName => "The image path has no file name"@,
            SynthesisFailure::Failed(e) => e,
            SynthesisFailure::UnexpectedEvent => "Unexpected event for this method"@,
        }
    }
}

impl SynthesisError {
    /// The message of the error.
    pub fn message(&self) -> (s: String)
        ensures
            s@ == self@.message(),
    {
        match self {
            SynthesisError::ConverterMissing => to_string(CONVERTER_MISSING),
            SynthesisError::ConverterFailed(e) => e.clone(),
            SynthesisError::NoFileName => to_string("The image path has no file name"),
            SynthesisError::Failed(e) => e.clone(),
            SynthesisError::UnexpectedEvent => to_string("Unexpected event for this method"),
        }
    }
}

/// What has happened so far in the making of one searchable PDF.
pub enum SynthesisEvent {
    /// Nothing yet.
    Start,
    /// The converter was looked for.
    ConverterLooked { installed: bool },
    /// The converter was run on the scratch image, and the scratch image
    /// removed.
    ConverterFinished(CommandOutput),
    /// The image was read: its size in pixels.
    ImageRead { width: u32, height: u32 },
    /// The document was written.
    Written,
    /// Reading, encoding or writing failed.
    Failed(String),
}

/// What is to be done next in the making of one searchable PDF.
pub enum SynthesisAction {
    /// Look whether the converter is installed.
    LookForConverter,
    /// Write the image as an RGB picture to a scratch file of the given
    /// name, run the converter on it for the given language and with the
    /// given path for the PDF, and remove the scratch file whatever the
    /// converter did. `converter_command` gives the arguments.
    RunConverter { scratch_image_name: String, language: String, output_path: String },
    /// Read the image at the given path and encode it as JPEG.
    ReadImage { image_path: String },
    /// Write the document to the given path.
    WriteNative { pdf: NativePdf, output_path: String },
    /// Nothing more: this is the outcome.
    Finish(Result<(), SynthesisError>),
}

/// The mathematical content of a `SynthesisAction`.
pub enum Synthesis {
    LookForConverter,
    RunConverter { scratch_image_name: Seq<char>, language: Seq<char>, output_path: Seq<char> },
    ReadImage { image_path: Seq<char> },
    WriteNative { width: u32, height: u32, content: Seq<Op>, output_path: Seq<char> },
    Finish(Result<(), SynthesisFailure>),
}

impl View for SynthesisAction {
    type V = Synthesis;

    open spec fn view(&self) -> Synthesis {
        match self {
            SynthesisAction::LookForConverter => Synthesis::LookForConverter,
            SynthesisAction::RunConverter { scratch_image_name, language, output_path } => {
                Synthesis::RunConverter {
                    scratch_image_name: scratch_image_name@,
                    language: language@,
                    output_path: output_path@,
                }
            },
            SynthesisAction::ReadImage { image_path } => Synthesis::ReadImage {
                image_path: image_path@,
            },
            SynthesisAction::WriteNative { pdf, output_path } => Synthesis::WriteNative {
                width: pdf.page_width,
                height: pdf.page_height,
                content: ops_of(pdf.content@),
                output_path: output_path@,
            },
            SynthesisAction::Finish(r) => Synthesis::Finish(
                match r {
                    Ok(_) => Ok(()),
                    Err(e) => Err(e@),
                },
            ),
        }
    }
}

/// The step that follows `event` when the converter is used.
pub open spec fn converter_step(
    image_path: Seq<char>,
    output_path: Seq<char>,
    language: Seq<char>,
    event: SynthesisEvent,
) -> Synthesis {
    match event {
        SynthesisEvent::Start => Synthesis::LookForConverter,
        SynthesisEvent::ConverterLooked { installed } => if !installed {
            Synthesis::Finish(Err(SynthesisFailure::ConverterMissing))
        } else {
            match scratch_image_name(image_path) {
                Some(name) => Synthesis::RunConverter {
                    scratch_image_name: name,
                    language,
                    output_path,
                },
                None => Synthesis::Finish(Err(SynthesisFailure::NoFileName)),
            }
        },
        SynthesisEvent::ConverterFinished(output) => if output.success {
            Synthesis::Finish(Ok(()))
        } else {
            Synthesis::Finish(
                Err(SynthesisFailure::ConverterFailed(converter_failure(output.stderr@))),
            )
        },
        SynthesisEvent::Failed(e) => Synthesis::Finish(Err(SynthesisFailure::Failed(e@))),
        _ => Synthesis::Finish(Err(SynthesisFailure::UnexpectedEvent)),
    }
}

/// The step that follows `event` on the native way.
pub open spec fn native_step(
    image_path: Seq<char>,
    ocr_text: Seq<char>,
    output_path: Seq<char>,
    event: SynthesisEvent,
) -> Synthesis {
    match event {
        SynthesisEvent::Start => Synthesis::ReadImage { image_path },
        SynthesisEvent::ImageRead { width, height } => Synthesis::WriteNative {
            width,
            height,
            content: page_content(width, height, ocr_text),
            output_path,
        },
        SynthesisEvent::Written => Synthesis::Finish(Ok(())),
        SynthesisEvent::Failed(e) => Synthesis::Finish(Err(SynthesisFailure::Failed(e@))),
        _ => Synthesis::Finish(Err(SynthesisFailure::UnexpectedEvent)),
    }
}

/// The step that follows `event` for the given method.
pub open spec fn synthesis_step(
    image_path: Seq<char>,
    ocr_text: Seq<char>,
    output_path: Seq<char>,
    language: Seq<char>,
    method: PdfCreationMethod,
    event: SynthesisEvent,
) -> Synthesis {
    match method {
        PdfCreationMethod::OcrMyPdf => converter_step(image_path, output_path, language, event),
        PdfCreationMethod::Native => native_step(image_path, ocr_text, output_path, event),
    }
}

/// The arguments with which the converter is run on the scratch image.
pub fn converter_command(language: &str, scratch_image: &str, output_path: &str) -> (args: Vec<
    String,
>)
    ensures
        texts(args@) == converter_arguments(language@, scratch_image@, output_path@),
{
    let mut args: Vec<String> = Vec::new();
    assert(texts(args@) =~= Seq::<Seq<char>>::empty());
    push_text(&mut args, "-l");
    push_text(&mut args, language);
    push_text(&mut args, "--image-dpi");
    push_text(&mut args, "300");
    push_text(&mut args, scratch_image);
    push_text(&mut args, output_path);
    assert(texts(args@) =~= converter_arguments(language@, scratch_image@, output_path@));
    args
}

/// The next step in the making of a searchable PDF by the converter.
pub fn create_with_ocrmypdf(image_path: &str, output_path: &str, language: &str, event:
    SynthesisEvent) -> (action: SynthesisAction)
    ensures
        action@ == converter_step(image_path@, output_path@, language@, event),
{
    match event {
        SynthesisEvent::Start => SynthesisAction::LookForConverter,
        SynthesisEvent::ConverterLooked { installed } => {
            if !installed {
                return SynthesisAction::Finish(Err(SynthesisError::ConverterMissing));
            }
            match file_stem_of(image_path) {
                Some(stem) => {
                    let mut name: Vec<char> = Vec::new();
                    append_str(&mut name, "ocr_temp_");
                    append_str(&mut name, stem.as_str());
                    append_str(&mut name, ".png");
                    assert(name@ =~= "ocr_temp_"@ + stem@ + ".png"@);
                    SynthesisAction::RunConverter {
                        scratch_image_name: string_of(&name),
                        language: to_string(language),
                        output_path: to_string(output_path),
                    }
                },
                None => SynthesisAction::Finish(Err(SynthesisError::NoFileName)),
            }
        },
        SynthesisEvent::ConverterFinished(output) => {
            if output.success {
                SynthesisAction::Finish(Ok(()))
            } else {
                SynthesisAction::Finish(
                    Err(
                        SynthesisError::ConverterFailed(
                            converter_failure_message(output.stderr.as_str()),
                        ),
                    ),
                )
            }
        },
        SynthesisEvent::Failed(e) => SynthesisAction::Finish(Err(SynthesisError::Failed(e))),
        _ => SynthesisAction::Finish(Err(SynthesisError::UnexpectedEvent)),
    }
}

/// The next step in the making of a searchable PDF on the native way.
pub fn create_with_pdf_writer(image_path: &str, ocr_text: &str, output_path: &str, event:
    SynthesisEvent) -> (action: SynthesisAction)
    ensures
        action@ == native_step(image_path@, ocr_text@, output_path@, event),
{
    match event {
        SynthesisEvent::Start => SynthesisAction::ReadImage {
            image_path: to_string(image_path),
        },
        SynthesisEvent::ImageRead { width, height } => SynthesisAction::WriteNative {
            pdf: native_pdf(width, height, ocr_text),
            output_path: to_string(output_path),
        },
        SynthesisEvent::Written => SynthesisAction::Finish(Ok(())),
        SynthesisEvent::Failed(e) => SynthesisAction::Finish(Err(SynthesisError::Failed(e))),
        _ => SynthesisAction::Finish(Err(SynthesisError::UnexpectedEvent)),
    }
}

/// The next step in the making of a searchable PDF for the image at
/// `image_path` with the text `ocr_text`, by the given method.
pub fn create_searchable_pdf(
    image_path: &str,
    ocr_text: &str,
    output_path: &str,
    language: &str,
    method: PdfCreationMethod,
    event: SynthesisEvent,
) -> (action: SynthesisAction)
    ensures
        action@ == synthesis_step(image_path@, ocr_text@, output_path@, language@, method, event),
{
    match method {
        PdfCreationMethod::OcrMyPdf => create_with_ocrmypdf(image_path, output_path, language, event),
        PdfCreationMethod::Native => create_with_pdf_writer(
            image_path,
            ocr_text,
            output_path,
            event,
        ),
    }
}

/// The page of the native document is as large as the image, and its text
/// layer shows the text in its escaped form, from which the text can be
/// read back.
pub proof fn lemma_native_page(width: u32, height: u32, ocr_text: Seq<char>, pdf: NativePdf)
    requires
        pdf.is_layout_of(width, height, ocr_text),
    ensures
        pdf.page_width == width,
        pdf.page_height == height,
        ops_of(pdf.content@)[1] == (Op::Scale { width, height }),
        ops_of(pdf.content@)[8] == Op::ShowText(escape_pdf_text(ocr_text)),
        crate::pdf_text::unescape_pdf_text(escape_pdf_text(ocr_text)) == ocr_text,
{
    crate::pdf_text::lemma_unescape_escape(ocr_text);
}

} // verus!
