use batch_ocr::ocr_engine::CommandOutput;
use batch_ocr::pdf_creator::{
    converter_command, converter_failure_message, create_searchable_pdf, create_with_ocrmypdf,
    create_with_pdf_writer, native_pdf, pdf_file_name, resolve_method, wants_searchable_pdf,
    ContentOp, PdfCreationMethod, SynthesisAction, SynthesisError, SynthesisEvent, CATALOG_ID,
    CONTENT_ID, FONT_ID, IMAGE_BITS_PER_COMPONENT, IMAGE_ID, PAGE_ID, PAGE_TREE_ID,
};
use batch_ocr::pdf_text::{chars_contain, chars_contain_ignoring_case, escape_chars};

fn cs(s: &str) -> Vec<char> {
    s.chars().collect()
}

fn escaped(s: &str) -> String {
    escape_chars(&cs(s)).into_iter().collect()
}

fn failed_run(stderr: &str) -> CommandOutput {
    CommandOutput { success: false, stdout: vec![], stderr: stderr.to_string() }
}

#[test]
fn reserved_characters_get_a_backslash() {
    assert_eq!(escaped("plain text"), "plain text");
    assert_eq!(escaped("a(b)c"), "a\\(b\\)c");
    assert_eq!(escaped("back\\slash"), "back\\\\slash");
    assert_eq!(escaped("\\("), "\\\\\\(");
    assert_eq!(escaped(""), "");
    assert_eq!(escaped("(((())))"), "\\(\\(\\(\\(\\)\\)\\)\\)");
    for s in ["f(x) = \\frac{1}{2}", "a\\\\b", ")(", "no reserved", "тест (кирилиця)"] {
        let std = s.replace('\\', "\\\\").replace('(', "\\(").replace(')', "\\)");
        assert_eq!(escaped(s), std);
    }
}

#[test]
fn native_layout_has_the_size_of_the_image_and_the_escaped_text() {
    let pdf = native_pdf(640, 480, "Total (net): 5\\6");
    assert_eq!((pdf.page_width, pdf.page_height), (640, 480));
    assert_eq!((pdf.image_width, pdf.image_height), (640, 480));
    assert_eq!(pdf.content.len(), 10);
    assert!(matches!(pdf.content[0], ContentOp::SaveState));
    assert!(matches!(pdf.content[1], ContentOp::Scale { width: 640, height: 480 }));
    assert!(matches!(pdf.content[2], ContentOp::PaintImage));
    assert!(matches!(pdf.content[3], ContentOp::RestoreState));
    assert!(matches!(pdf.content[4], ContentOp::BeginText));
    assert!(matches!(pdf.content[5], ContentOp::SetInvisibleText));
    assert!(matches!(pdf.content[6], ContentOp::SetFont { size: 12 }));
    assert!(matches!(pdf.content[7], ContentOp::NextLine { x: 10, y: 460 }));
    match &pdf.content[8] {
        ContentOp::ShowText(t) => assert_eq!(t, "Total \\(net\\): 5\\\\6"),
        _ => panic!("expected ShowText"),
    }
    assert!(matches!(pdf.content[9], ContentOp::EndText));
}

#[test]
fn native_layout_of_small_and_large_images() {
    let small = native_pdf(1, 5, "");
    assert!(matches!(small.content[7], ContentOp::NextLine { x: 10, y: -15 }));
    let large = native_pdf(u32::MAX, u32::MAX, "x");
    assert!(matches!(
        large.content[1],
        ContentOp::Scale { width: u32::MAX, height: u32::MAX }
    ));
    assert!(matches!(large.content[7], ContentOp::NextLine { x: 10, y: 4294967275 }));
    assert_eq!(large.page_height, u32::MAX);
}

#[test]
fn object_numbers_of_the_native_document() {
    assert_eq!(
        [CATALOG_ID, PAGE_TREE_ID, PAGE_ID, IMAGE_ID, CONTENT_ID, FONT_ID],
        [1, 2, 3, 4, 5, 6]
    );
    assert_eq!(IMAGE_BITS_PER_COMPONENT, 8);
}

#[test]
fn missing_converter_degrades_to_the_native_way() {
    assert_eq!(resolve_method(PdfCreationMethod::OcrMyPdf, true), PdfCreationMethod::OcrMyPdf);
    assert_eq!(resolve_method(PdfCreationMethod::OcrMyPdf, false), PdfCreationMethod::Native);
    assert_eq!(resolve_method(PdfCreationMethod::Native, true), PdfCreationMethod::Native);
    assert_eq!(resolve_method(PdfCreationMethod::Native, false), PdfCreationMethod::Native);
}

#[test]
fn searchable_pdfs_are_made_for_images_without_error() {
    assert!(wants_searchable_pdf("a/scan.png", false));
    assert!(!wants_searchable_pdf("a/scan.png", true));
    assert!(!wants_searchable_pdf("a/doc.pdf", false));
    assert!(!wants_searchable_pdf("a/readme", false));
    assert_eq!(pdf_file_name("in/scan.01.PNG").as_deref(), Some("scan.01.pdf"));
    assert_eq!(pdf_file_name("in/.hidden").as_deref(), Some(".hidden.pdf"));
    assert_eq!(pdf_file_name("noext").as_deref(), Some("noext.pdf"));
    assert_eq!(pdf_file_name("in/.."), None);
    assert_eq!(pdf_file_name(""), None);
}

#[test]
fn converter_steps() {
    let step = |event| create_with_ocrmypdf("in/scan.v2.png", "out/scan.v2.pdf", "ukr+eng", event);
    assert!(matches!(step(SynthesisEvent::Start), SynthesisAction::LookForConverter));
    match step(SynthesisEvent::ConverterLooked { installed: false }) {
        SynthesisAction::Finish(Err(e)) => {
            assert!(matches!(e, SynthesisError::ConverterMissing));
            assert!(e.message().starts_with("ocrmypdf is not installed!\n\nInstallation instructions:\n"));
            assert!(e.message().ends_with("https://ocrmypdf.readthedocs.io/en/latest/installation.html"));
        }
        _ => panic!("expected a failure"),
    }
    match step(SynthesisEvent::ConverterLooked { installed: true }) {
        SynthesisAction::RunConverter { scratch_image_name, language, output_path } => {
            assert_eq!(scratch_image_name, "ocr_temp_scan.v2.png");
            assert_eq!(language, "ukr+eng");
            assert_eq!(output_path, "out/scan.v2.pdf");
        }
        _ => panic!("expected RunConverter"),
    }
    let ok = CommandOutput { success: true, stdout: vec![], stderr: "ERROR ignored".to_string() };
    assert!(matches!(step(SynthesisEvent::ConverterFinished(ok)), SynthesisAction::Finish(Ok(()))));
    match step(SynthesisEvent::ConverterFinished(failed_run("INFO start\nERROR - bad dpi\nINFO done\n"))) {
        SynthesisAction::Finish(Err(e)) => {
            assert!(matches!(e, SynthesisError::ConverterFailed(_)));
            assert_eq!(e.message(), "ocrmypdf failed: ERROR - bad dpi");
        }
        _ => panic!("expected a failure"),
    }
    match step(SynthesisEvent::Failed("cannot decode image".to_string())) {
        SynthesisAction::Finish(Err(e)) => assert_eq!(e.message(), "cannot decode image"),
        _ => panic!("expected a failure"),
    }
    assert!(matches!(
        step(SynthesisEvent::ImageRead { width: 1, height: 1 }),
        SynthesisAction::Finish(Err(SynthesisError::UnexpectedEvent))
    ));
    assert!(matches!(
        step(SynthesisEvent::Written),
        SynthesisAction::Finish(Err(SynthesisError::UnexpectedEvent))
    ));
    match create_with_ocrmypdf("..", "o.pdf", "eng", SynthesisEvent::ConverterLooked { installed: true }) {
        SynthesisAction::Finish(Err(e)) => {
            assert!(matches!(e, SynthesisError::NoFileName));
            assert_eq!(e.message(), "The image path has no file name");
        }
        _ => panic!("expected a failure"),
    }
}

#[test]
fn converter_command_line() {
    assert_eq!(
        converter_command("ukr+eng", "/tmp/ocr_temp_scan.png", "out/scan.pdf"),
        vec!["-l", "ukr+eng", "--image-dpi", "300", "/tmp/ocr_temp_scan.png", "out/scan.pdf"]
    );
}

#[test]
fn converter_failure_shows_the_last_error_line() {
    assert_eq!(converter_failure_message(""), "ocrmypdf failed");
    assert_eq!(converter_failure_message("all fine\nnothing here\n"), "ocrmypdf failed");
    assert_eq!(
        converter_failure_message("Error: first\n   InputFileError: second   \r\nlast line"),
        "ocrmypdf failed: InputFileError: second"
    );
    assert_eq!(converter_failure_message("some ERROR"), "ocrmypdf failed: some ERROR");
    assert_eq!(converter_failure_message("erro\nrror\n"), "ocrmypdf failed");
}

#[test]
fn native_steps() {
    let step = |event| create_with_pdf_writer("in/scan.png", "a (b)", "out/scan.pdf", event);
    match step(SynthesisEvent::Start) {
        SynthesisAction::ReadImage { image_path } => assert_eq!(image_path, "in/scan.png"),
        _ => panic!("expected ReadImage"),
    }
    match step(SynthesisEvent::ImageRead { width: 20, height: 30 }) {
        SynthesisAction::WriteNative { pdf, output_path } => {
            assert_eq!(output_path, "out/scan.pdf");
            assert_eq!((pdf.page_width, pdf.page_height), (20, 30));
            match &pdf.content[8] {
                ContentOp::ShowText(t) => assert_eq!(t, "a \\(b\\)"),
                _ => panic!("expected ShowText"),
            }
        }
        _ => panic!("expected WriteNative"),
    }
    assert!(matches!(step(SynthesisEvent::Written), SynthesisAction::Finish(Ok(()))));
    assert!(matches!(
        step(SynthesisEvent::Failed("disk full".to_string())),
        SynthesisAction::Finish(Err(SynthesisError::Failed(_)))
    ));
    assert!(matches!(
        step(SynthesisEvent::ConverterLooked { installed: true }),
        SynthesisAction::Finish(Err(SynthesisError::UnexpectedEvent))
    ));
    match step(SynthesisEvent::ConverterLooked { installed: true }) {
        SynthesisAction::Finish(Err(e)) => assert_eq!(e.message(), "Unexpected event for this method"),
        _ => panic!("expected a failure"),
    }
}

#[test]
fn method_selects_the_steps() {
    assert!(matches!(
        create_searchable_pdf("a.png", "t", "a.pdf", "eng", PdfCreationMethod::OcrMyPdf, SynthesisEvent::Start),
        SynthesisAction::LookForConverter
    ));
    assert!(matches!(
        create_searchable_pdf("a.png", "t", "a.pdf", "eng", PdfCreationMethod::Native, SynthesisEvent::Start),
        SynthesisAction::ReadImage { .. }
    ));
}

#[test]
fn searching_text() {
    assert!(chars_contain(&cs("hello world"), &cs("lo w")));
    assert!(chars_contain(&cs("hello"), &cs("")));
    assert!(chars_contain(&cs(""), &cs("")));
    assert!(chars_contain(&cs("hello"), &cs("hello")));
    assert!(chars_contain(&cs("hello"), &cs("o")));
    assert!(!chars_contain(&cs("hello"), &cs("hellos")));
    assert!(!chars_contain(&cs("hello"), &cs("world")));
    assert!(chars_contain_ignoring_case(&cs("An ErRoR occurred"), "error"));
    assert!(!chars_contain_ignoring_case(&cs("An eror occurred"), "error"));
    for (s, p) in [("aaab", "aab"), ("abcabd", "abd"), ("abc", "bd"), ("", "a")] {
        assert_eq!(chars_contain(&cs(s), &cs(p)), s.contains(p));
    }
}
