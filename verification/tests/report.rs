use batch_ocr::batch::OcrResult;
use batch_ocr::report::{
    count_results, failures, header_row, record_row, results_csv, save_results, text_files,
};
use batch_ocr::report_text::generate_report;
use batch_ocr::summary::{
    kind_distribution, parse_dpi, read_dpi_request, screen_dpi, top_by_text_size, DpiRequest,
    DEFAULT_DPI, TOP_FILES,
};

fn record(name: &str, kind: &str, pages: usize, text: &str, error: Option<&str>) -> OcrResult {
    OcrResult {
        filename: name.to_string(),
        file_type: kind.to_string(),
        page_count: pages,
        text: text.to_string(),
        processing_time_ms: 15,
        error: error.map(|e| e.to_string()),
        metadata: vec![],
    }
}

fn sample() -> Vec<OcrResult> {
    vec![
        record("a.png", "Image (Png)", 1, "hello", None),
        record("b.pdf", "PDF", 3, "", None),
        record("c.docx", "DOCX", 0, "", Some("Processing error: Failed to parse DOCX: bad")),
        record("d.png", "Image (Png)", 1, "привіт", None),
        record("e.pdf", "PDF", 2, "some longer text", None),
        record("f.zip", "Archive (Zip)", 0, "", Some("Processing error: Archive processing not implemented in this version")),
    ]
}

#[test]
fn table_rows() {
    assert_eq!(
        header_row(),
        vec!["filename", "file_type", "page_count", "text_length", "processing_time_ms", "error"]
    );
    let rows = sample();
    assert_eq!(record_row(&rows[0]), vec!["a.png", "Image (Png)", "1", "5", "15", ""]);
    assert_eq!(record_row(&rows[3]), vec!["d.png", "Image (Png)", "1", "12", "15", ""]);
    assert_eq!(
        record_row(&rows[2]),
        vec!["c.docx", "DOCX", "0", "0", "15", "Processing error: Failed to parse DOCX: bad"]
    );
}

#[test]
fn table_as_csv() {
    let rows = vec![
        record("plain.png", "Image (Png)", 1, "hello", None),
        record("with,comma.pdf", "PDF", 2, "x", Some("said \"no\"\nand left")),
    ];
    let csv = String::from_utf8(results_csv(&rows)).unwrap_or_default();
    assert_eq!(
        csv,
        "filename,file_type,page_count,text_length,processing_time_ms,error\n\
         plain.png,Image (Png),1,5,15,\n\
         \"with,comma.pdf\",PDF,2,1,15,\"said \"\"no\"\"\nand left\"\n"
    );
    let empty = String::from_utf8(results_csv(&vec![])).unwrap_or_default();
    assert_eq!(empty, "filename,file_type,page_count,text_length,processing_time_ms,error\n");
}

#[test]
fn csv_matches_one_writer_for_the_whole_table() {
    let rows = sample();
    let mut writer = csv::Writer::from_writer(Vec::new());
    let header = ["filename", "file_type", "page_count", "text_length", "processing_time_ms", "error"];
    assert!(writer.write_record(&header).is_ok());
    for r in &rows {
        let fields = [
            r.filename.clone(),
            r.file_type.clone(),
            r.page_count.to_string(),
            r.text.len().to_string(),
            r.processing_time_ms.to_string(),
            r.error.clone().unwrap_or_default(),
        ];
        assert!(writer.write_record(&fields).is_ok());
    }
    let expected = writer.into_inner().unwrap_or_default();
    assert_eq!(results_csv(&rows), expected);
}

#[test]
fn text_files_of_successful_records_with_text() {
    let files = text_files(&sample());
    assert_eq!(
        files,
        vec![
            ("a.txt".to_string(), "hello".to_string()),
            ("d.txt".to_string(), "привіт".to_string()),
            ("e.txt".to_string(), "some longer text".to_string()),
        ]
    );
    let odd = vec![
        record("archive.tar.gz", "x", 1, "t", None),
        record(".hidden", "x", 1, "t", None),
        record("..", "x", 1, "t", None),
        record("failed.png", "x", 0, "leftover", Some("e")),
    ];
    assert_eq!(
        text_files(&odd),
        vec![
            ("archive.tar.txt".to_string(), "t".to_string()),
            (".hidden.txt".to_string(), "t".to_string()),
            (".txt".to_string(), "t".to_string()),
        ]
    );
}

#[test]
fn counts_of_a_batch() {
    let counts = count_results(&sample());
    assert_eq!(counts.files, 6);
    assert_eq!(counts.successful, 4);
    assert_eq!(counts.failed, 2);
    assert_eq!(counts.pages, 7);
    assert_eq!(counts.characters, 5 + 6 + 16);
    let none = count_results(&vec![]);
    assert_eq!((none.files, none.successful, none.failed), (0, 0, 0));
    assert_eq!((none.pages, none.characters), (0, 0));
}

#[test]
fn failures_are_listed_in_order() {
    assert_eq!(
        failures(&sample()),
        vec![
            ("c.docx".to_string(), "Processing error: Failed to parse DOCX: bad".to_string()),
            (
                "f.zip".to_string(),
                "Processing error: Archive processing not implemented in this version".to_string()
            ),
        ]
    );
}

#[test]
fn distribution_by_kind() {
    let stats = kind_distribution(&sample());
    assert_eq!(stats.len(), 2);
    assert_eq!(stats[0].kind, "Image (Png)");
    assert_eq!(stats[0].files, 2);
    assert_eq!(stats[0].characters, 11);
    assert_eq!(stats[0].average_characters(), 5);
    assert_eq!(stats[1].kind, "PDF");
    assert_eq!(stats[1].files, 2);
    assert_eq!(stats[1].characters, 16);
    assert_eq!(stats[1].average_characters(), 8);
    assert!(kind_distribution(&vec![]).is_empty());
    let only_failures = vec![record("x", "PDF", 0, "", Some("e"))];
    assert!(kind_distribution(&only_failures).is_empty());
}

#[test]
fn largest_texts_first() {
    let rows = vec![
        record("r0", "k", 1, "aaaa", None),
        record("r1", "k", 1, "bb", None),
        record("r2", "k", 1, "cccccc", Some("failed")),
        record("r3", "k", 1, "dddd", None),
        record("r4", "k", 1, "", None),
        record("r5", "k", 1, "eeeeeeee", None),
        record("r6", "k", 1, "ffff", None),
        record("r7", "k", 1, "g", None),
    ];
    assert_eq!(top_by_text_size(&rows, 5), vec![5, 0, 3, 6, 1]);
    assert_eq!(top_by_text_size(&rows, 1), vec![5]);
    assert_eq!(top_by_text_size(&rows, 0), Vec::<usize>::new());
    assert_eq!(top_by_text_size(&rows, 100), vec![5, 0, 3, 6, 1, 7, 4]);
    let mut order: Vec<usize> = (0..rows.len()).filter(|i| rows[*i].error.is_none()).collect();
    order.sort_by(|a, b| rows[*b].text.len().cmp(&rows[*a].text.len()));
    order.truncate(5);
    assert_eq!(top_by_text_size(&rows, 5), order);
    assert_eq!(TOP_FILES, 5);
}

#[test]
fn largest_texts_are_ordered_by_bytes() {
    let rows = vec![
        record("ascii", "k", 1, "abcdefg", None),
        record("cyrillic", "k", 2, "абвг", None),
    ];
    assert_eq!(top_by_text_size(&rows, 5), vec![1, 0]);
    assert!(top_by_text_size(&vec![], 5).is_empty());
}

#[test]
fn report_of_a_batch() {
    let report = generate_report(&sample(), "66.7", "33.3");
    let expected = "=== OCR Processing Report ===\n\n\
Overall Statistics:\n\
\x20 - Files processed: 6\n\
\x20 - Successful: 4 (66.7%)\n\
\x20 - Failed: 2 (33.3%)\n\
\x20 - Total pages: 7\n\
\x20 - Total text characters: 27\n\n\
Distribution by file type (successful only):\n\
\x20 - Image (Png): 2 files, avg 5 chars/file\n\
\x20 - PDF: 2 files, avg 8 chars/file\n\
\n\
Failed files:\n\
\x20 - c.docx: Processing error: Failed to parse DOCX: bad\n\
\x20 - f.zip: Processing error: Archive processing not implemented in this version\n\
\n\
Top 5 files by text size:\n\
\x20 1. e.pdf: 16 characters, 2 pages\n\
\x20 2. d.png: 6 characters, 1 pages\n\
\x20 3. a.png: 5 characters, 1 pages\n\
\x20 4. b.pdf: 0 characters, 3 pages\n";
    assert_eq!(report, expected);
}

#[test]
fn report_without_failures_and_without_successes() {
    let fine = vec![record("a.png", "Image (Png)", 1, "hello", None)];
    let report = generate_report(&fine, "100.0", "0.0");
    assert!(!report.contains("Failed files:"));
    assert!(report.ends_with("Top 5 files by text size:\n  1. a.png: 5 characters, 1 pages\n"));
    let bad = vec![record("a.png", "Image (Png)", 0, "", Some("boom"))];
    let report = generate_report(&bad, "0.0", "100.0");
    assert!(!report.contains("Top 5 files"));
    assert!(report.ends_with("Failed files:\n  - a.png: boom\n\n"));
    let none = generate_report(&vec![], "NaN", "NaN");
    assert_eq!(
        none,
        "=== OCR Processing Report ===\n\nOverall Statistics:\n  - Files processed: 0\n  - Successful: 0 (NaN%)\n  - Failed: 0 (NaN%)\n  - Total pages: 0\n  - Total text characters: 0\n\nDistribution by file type (successful only):\n\n"
    );
}

#[test]
fn resolution_from_the_command_line() {
    assert_eq!(DEFAULT_DPI, 300);
    assert_eq!(screen_dpi(true), 96);
    assert_eq!(screen_dpi(false), 72);
    assert_eq!(parse_dpi("300", 72), 300);
    assert_eq!(parse_dpi("150", 72), 150);
    assert_eq!(parse_dpi("screen", 72), 72);
    assert_eq!(parse_dpi("SCREEN", 96), 96);
    assert_eq!(parse_dpi("Screen", 72), 72);
    assert_eq!(parse_dpi("high", 72), 300);
    assert_eq!(parse_dpi("", 72), 300);
    assert_eq!(parse_dpi("-5", 72), 300);
    assert_eq!(parse_dpi("4294967296", 72), 300);
    assert_eq!(parse_dpi("+600", 72), 600);
    assert_eq!(parse_dpi("0", 72), 0);
}

#[test]
fn what_a_resolution_argument_asks_for() {
    assert_eq!(read_dpi_request("screen"), DpiRequest::Screen);
    assert_eq!(read_dpi_request("ScReEn"), DpiRequest::Screen);
    assert_eq!(read_dpi_request("600"), DpiRequest::Number(600));
    assert_eq!(read_dpi_request("screens"), DpiRequest::Unreadable);
    assert_eq!(read_dpi_request("3e2"), DpiRequest::Unreadable);
    assert_eq!(read_dpi_request(""), DpiRequest::Unreadable);
}

#[test]
fn what_is_saved_of_a_batch() {
    let rows = sample();
    let all = save_results(&rows, true);
    assert_eq!(all.table, results_csv(&rows));
    assert_eq!(all.texts, text_files(&rows));
    assert_eq!(all.texts.len(), 3);
    let table_only = save_results(&rows, false);
    assert_eq!(table_only.table, results_csv(&rows));
    assert!(table_only.texts.is_empty());
}
