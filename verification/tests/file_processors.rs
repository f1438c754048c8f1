use batch_ocr::documents::{
    count_words, estimate_pages, CellPart, CellValue, Document, DocumentBlock, ParagraphPart,
    RunPart, Sheet, TableCell, TableRow, Workbook,
};
use batch_ocr::file_processors::{
    FileAction, FileEvent, FileProcessor, PageImageText, ProcessError, ProcessResult,
};
use batch_ocr::file_type::{ArchiveFormat, FileType, ImageFormat};
use batch_ocr::ocr_engine::OcrError;

fn finished(action: FileAction) -> Result<Vec<ProcessResult>, ProcessError> {
    match action {
        FileAction::Finish(r) => r,
        _ => panic!("expected the action Finish"),
    }
}

fn one(r: Result<Vec<ProcessResult>, ProcessError>) -> ProcessResult {
    match r {
        Ok(mut v) => {
            assert_eq!(v.len(), 1);
            v.remove(0)
        }
        Err(e) => panic!("unexpected failure: {}", e.message()),
    }
}

fn text(s: &str) -> RunPart {
    RunPart::Text(s.to_string())
}

fn paragraph(words: &[&str]) -> Vec<ParagraphPart> {
    vec![ParagraphPart::Run(words.iter().map(|w| text(w)).collect())]
}

fn long_text(n: usize) -> String {
    "a".repeat(n)
}

#[test]
fn unsupported_files_fail_before_anything_is_read() {
    let p = FileProcessor::new(true);
    for event in [
        FileEvent::Start,
        FileEvent::ReadFailed("x".to_string()),
        FileEvent::ImageRecognized(Ok("text".to_string())),
    ] {
        match finished(p.process_file("notes.txt", event)) {
            Err(e) => {
                assert!(matches!(e, ProcessError::Unsupported));
                assert_eq!(e.message(), "Unsupported file format");
            }
            Ok(_) => panic!("expected a failure"),
        }
    }
}

#[test]
fn archives_are_recognized_but_not_implemented() {
    let p = FileProcessor::new(false);
    for path in ["a.zip", "b.TAR", "c.rar"] {
        match finished(p.process_file(path, FileEvent::Start)) {
            Err(e) => {
                assert!(matches!(e, ProcessError::ArchiveNotImplemented));
                assert_eq!(e.message(), "Archive processing not implemented in this version");
            }
            Ok(_) => panic!("expected a failure"),
        }
    }
    assert!(matches!(p.process_archive("a.zip"), Err(ProcessError::ArchiveNotImplemented)));
    assert_eq!(FileType::from_path("a.zip"), FileType::Archive(ArchiveFormat::Zip));
}

#[test]
fn first_action_of_each_kind() {
    let p = FileProcessor::new(false);
    assert!(matches!(p.process_file("a.png", FileEvent::Start), FileAction::RecognizeImage));
    assert!(matches!(p.process_file("a.pdf", FileEvent::Start), FileAction::ReadPdf));
    assert!(matches!(p.process_file("a.docx", FileEvent::Start), FileAction::ReadDocx));
    assert!(matches!(p.process_file("a.xlsx", FileEvent::Start), FileAction::ReadWorkbook));
    assert!(matches!(p.process_file("a.xls", FileEvent::Start), FileAction::ReadWorkbook));
}

#[test]
fn image_gives_one_page_with_the_recognized_text() {
    let p = FileProcessor::new(false);
    let r = one(finished(
        p.process_file("dir/scan.JPG", FileEvent::ImageRecognized(Ok("Hello".to_string()))),
    ));
    assert_eq!(r.file_type, FileType::Image(ImageFormat::Jpeg));
    assert_eq!(r.page_count, 1);
    assert_eq!(r.text, "Hello");
}

#[test]
fn engine_failure_is_a_dispatch_failure_with_engine_context() {
    let p = FileProcessor::new(false);
    let failure = OcrError::EngineFailed("cannot read image".to_string());
    match finished(p.process_file("scan.png", FileEvent::ImageRecognized(Err(failure)))) {
        Err(e) => {
            assert!(matches!(e, ProcessError::Ocr(_)));
            assert_eq!(e.message(), "OCR error: Tesseract failed: cannot read image");
        }
        Ok(_) => panic!("expected a failure"),
    }
}

#[test]
fn read_failure_is_a_dispatch_failure() {
    let p = FileProcessor::new(false);
    for path in ["a.png", "a.pdf", "a.docx", "a.xlsx"] {
        match finished(p.process_file(path, FileEvent::ReadFailed("permission denied".to_string()))) {
            Err(e) => {
                assert!(matches!(e, ProcessError::Read(_)));
                assert_eq!(e.message(), "permission denied");
            }
            Ok(_) => panic!("expected a failure"),
        }
    }
}

#[test]
fn event_of_another_kind_is_refused() {
    let p = FileProcessor::new(false);
    let ev = FileEvent::PdfRead { direct_text: None, page_count: None };
    match finished(p.process_file("a.png", ev)) {
        Err(e) => {
            assert!(matches!(e, ProcessError::UnexpectedEvent));
            assert_eq!(e.message(), "Unexpected event for this kind of file");
        }
        Ok(_) => panic!("expected a failure"),
    }
    assert!(matches!(
        finished(p.process_file("a.pdf", FileEvent::ImageRecognized(Ok(String::new())))),
        Err(ProcessError::UnexpectedEvent)
    ));
    assert!(matches!(
        finished(p.process_file("a.docx", FileEvent::WorkbookRead(Ok(Workbook { sheets: vec![] })))),
        Err(ProcessError::UnexpectedEvent)
    ));
    assert!(matches!(
        finished(p.process_file("a.xls", FileEvent::DocxRead(Ok(Document { blocks: vec![] })))),
        Err(ProcessError::UnexpectedEvent)
    ));
}

#[test]
fn accepted_direct_text_never_asks_for_ocr() {
    for use_ocr in [false, true] {
        let p = FileProcessor::new(use_ocr);
        let direct = long_text(101);
        let ev = FileEvent::PdfRead { direct_text: Some(direct.clone()), page_count: Some(3) };
        let r = one(finished(p.process_file("doc.pdf", ev)));
        assert_eq!(r.file_type, FileType::Pdf);
        assert_eq!(r.page_count, 3);
        assert_eq!(r.text, direct);
    }
}

#[test]
fn direct_text_at_the_threshold_is_rejected() {
    let with_ocr = FileProcessor::new(true);
    let without = FileProcessor::new(false);
    for direct in [
        Some(long_text(100)),
        Some(" ".repeat(500)),
        Some(String::new()),
        Some("short".to_string()),
        None,
    ] {
        let ev = FileEvent::PdfRead { direct_text: direct.clone(), page_count: Some(2) };
        assert!(matches!(with_ocr.process_file("a.pdf", ev), FileAction::RecognizePdfImages));
        let ev = FileEvent::PdfRead { direct_text: direct, page_count: Some(2) };
        let r = one(finished(without.process_file("a.pdf", ev)));
        assert_eq!(r.text, "");
        assert_eq!(r.page_count, 2);
        assert_eq!(r.file_type, FileType::Pdf);
    }
}

#[test]
fn direct_text_length_counts_characters() {
    let p = FileProcessor::new(true);
    let hundred = "я".repeat(100);
    let ev = FileEvent::PdfRead { direct_text: Some(hundred), page_count: None };
    assert!(matches!(p.process_file("a.pdf", ev), FileAction::RecognizePdfImages));
    let more = "я".repeat(101);
    let ev = FileEvent::PdfRead { direct_text: Some(more.clone()), page_count: None };
    assert_eq!(one(finished(p.process_file("a.pdf", ev))).text, more);
    let padded = format!("  {}x  ", " ".repeat(100));
    let ev = FileEvent::PdfRead { direct_text: Some(padded.clone()), page_count: None };
    assert_eq!(one(finished(p.process_file("a.pdf", ev))).text, padded);
}

#[test]
fn pdf_page_count_is_at_least_one() {
    let p = FileProcessor::new(false);
    for (given, expected) in [(None, 1usize), (Some(0), 1), (Some(1), 1), (Some(17), 17)] {
        let ev = FileEvent::PdfRead { direct_text: None, page_count: given };
        assert_eq!(one(finished(p.process_file("a.pdf", ev))).page_count, expected);
    }
}

#[test]
fn ocr_of_embedded_images_is_joined_with_page_markers() {
    let p = FileProcessor::new(true);
    let images = vec![
        PageImageText { page: 0, text: Some("first page".to_string()) },
        PageImageText { page: 0, text: Some("   \n".to_string()) },
        PageImageText { page: 1, text: None },
        PageImageText { page: 2, text: Some(" third ".to_string()) },
        PageImageText { page: 11, text: Some("twelfth".to_string()) },
    ];
    assert_eq!(
        p.extract_text_from_pdf_with_ocr(&images),
        "\n--- Page 1 ---\nfirst page\n--- Page 3 ---\n third \n--- Page 12 ---\ntwelfth"
    );
    let ev = FileEvent::PdfImagesRecognized { images: Ok(images), page_count: Some(12) };
    let r = one(finished(p.process_file("scan.pdf", ev)));
    assert_eq!(r.page_count, 12);
    assert!(r.text.starts_with("\n--- Page 1 ---\nfirst page"));
    assert_eq!(p.extract_text_from_pdf_with_ocr(&vec![]), "");
    let last = vec![PageImageText { page: usize::MAX, text: Some("x".to_string()) }];
    let expected = format!("\n--- Page {} ---\nx", usize::MAX as u128 + 1);
    assert_eq!(p.extract_text_from_pdf_with_ocr(&last), expected);
}

#[test]
fn unparseable_pdf_container_fails_the_fallback() {
    let p = FileProcessor::new(true);
    let ev = FileEvent::PdfImagesRecognized { images: Err("bad xref".to_string()), page_count: None };
    match finished(p.process_file("a.pdf", ev)) {
        Err(e) => {
            assert!(matches!(e, ProcessError::Pdf(_)));
            assert_eq!(e.message(), "bad xref");
        }
        Ok(_) => panic!("expected a failure"),
    }
}

#[test]
fn document_text_of_paragraphs_and_tables() {
    let doc = Document {
        blocks: vec![
            DocumentBlock::Paragraph(vec![
                ParagraphPart::Run(vec![text("Hello"), RunPart::Other, text("big")]),
                ParagraphPart::Other,
                ParagraphPart::Run(vec![text("world")]),
            ]),
            DocumentBlock::Other,
            DocumentBlock::Paragraph(vec![]),
            DocumentBlock::Table(vec![
                TableRow {
                    cells: vec![
                        TableCell { parts: vec![CellPart::Paragraph(paragraph(&["a", "b"]))] },
                        TableCell { parts: vec![CellPart::Other, CellPart::Paragraph(paragraph(&["c"]))] },
                    ],
                },
                TableRow { cells: vec![TableCell { parts: vec![] }] },
                TableRow { cells: vec![] },
            ]),
        ],
    };
    let expected = "Hello big world \n\na b \tc \t\n\t\n\n";
    let got: String = doc.extract_text().into_iter().collect();
    assert_eq!(got, expected);
    let p = FileProcessor::new(false);
    let r = one(finished(p.process_file("letter.docx", FileEvent::DocxRead(Ok(doc)))));
    assert_eq!(r.file_type, FileType::Docx);
    assert_eq!(r.text, expected);
    assert_eq!(r.page_count, 1);
}

#[test]
fn document_pages_are_estimated_from_words() {
    assert_eq!(estimate_pages(0), 1);
    assert_eq!(estimate_pages(1), 1);
    assert_eq!(estimate_pages(500), 1);
    assert_eq!(estimate_pages(501), 2);
    assert_eq!(estimate_pages(1000), 2);
    assert_eq!(estimate_pages(1001), 3);
    assert_eq!(estimate_pages(usize::MAX), (usize::MAX - 1) / 500 + 1);
    let words: Vec<&str> = std::iter::repeat("w").take(1001).collect();
    let doc = Document { blocks: vec![DocumentBlock::Paragraph(paragraph(&words))] };
    let p = FileProcessor::new(false);
    assert_eq!(one(p.process_docx(Ok(doc))).page_count, 3);
    let empty = Document { blocks: vec![] };
    let r = one(p.process_docx(Ok(empty)));
    assert_eq!(r.page_count, 1);
    assert_eq!(r.text, "");
}

#[test]
fn words_are_counted_as_std_does() {
    for s in ["", " ", "a", " a ", "a b", "a  b\tc\nd", "\u{a0}x\u{3000}y", "one,two three"] {
        let chars: Vec<char> = s.chars().collect();
        assert_eq!(count_words(&chars), s.split_whitespace().count(), "text {:?}", s);
    }
}

#[test]
fn unparseable_document_is_a_dispatch_failure() {
    let p = FileProcessor::new(false);
    match finished(p.process_file("bad.docx", FileEvent::DocxRead(Err("zip error".to_string())))) {
        Err(e) => {
            assert!(matches!(e, ProcessError::Docx(_)));
            assert_eq!(e.message(), "Failed to parse DOCX: zip error");
        }
        Ok(_) => panic!("expected a failure"),
    }
}

#[test]
fn workbook_without_accessible_rows_still_counts_its_sheets() {
    let workbook = Workbook {
        sheets: vec![
            Sheet { name: "Sheet1".to_string(), rows: None },
            Sheet { name: "Sheet2".to_string(), rows: None },
        ],
    };
    let p = FileProcessor::new(false);
    let r = one(finished(p.process_file("book.xlsx", FileEvent::WorkbookRead(Ok(workbook)))));
    assert_eq!(r.page_count, 2);
    assert!(r.text.contains("=== Sheet: Sheet1 ==="));
    assert!(r.text.contains("=== Sheet: Sheet2 ==="));
    assert_eq!(r.text, "\n=== Sheet: Sheet1 ===\n\n=== Sheet: Sheet2 ===\n");
    assert_eq!(r.file_type, FileType::Xlsx);
}

#[test]
fn workbook_cells_are_written_by_their_type() {
    let workbook = Workbook {
        sheets: vec![Sheet {
            name: "Data".to_string(),
            rows: Some(vec![
                vec![
                    CellValue::Text("name".to_string()),
                    CellValue::Integer(-7),
                    CellValue::Number("3.5".to_string()),
                    CellValue::Boolean(true),
                    CellValue::Boolean(false),
                ],
                vec![],
                vec![
                    CellValue::Empty,
                    CellValue::DateTime("2024-01-02T03:04:05".to_string()),
                    CellValue::Duration("PT1H".to_string()),
                    CellValue::Error("Div0".to_string()),
                ],
            ]),
        }],
    };
    let p = FileProcessor::new(false);
    let r = one(p.process_excel("old.xls", Ok(workbook)));
    assert_eq!(r.file_type, FileType::Xls);
    assert_eq!(r.page_count, 1);
    assert_eq!(
        r.text,
        "\n=== Sheet: Data ===\nname\t-7\t3.5\ttrue\tfalse\t\n\n\t2024-01-02T03:04:05\tPT1H\t[Error: Div0]\t\n"
    );
}

#[test]
fn workbook_without_sheets_counts_one_page() {
    let p = FileProcessor::new(false);
    let r = one(p.process_excel("empty.xlsx", Ok(Workbook { sheets: vec![] })));
    assert_eq!(r.page_count, 1);
    assert_eq!(r.text, "");
    match p.process_excel("x.xlsx", Err("not a zip".to_string())) {
        Err(e) => {
            assert!(matches!(e, ProcessError::Workbook(_)));
            assert_eq!(e.message(), "not a zip");
        }
        Ok(_) => panic!("expected a failure"),
    }
}
