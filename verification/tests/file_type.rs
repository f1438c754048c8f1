use batch_ocr::file_type::{ArchiveFormat, FileType, ImageFormat};

#[test]
fn classifies_images_by_extension() {
    assert_eq!(FileType::from_path("scan.jpg"), FileType::Image(ImageFormat::Jpeg));
    assert_eq!(FileType::from_path("scan.jpeg"), FileType::Image(ImageFormat::Jpeg));
    assert_eq!(FileType::from_path("scan.png"), FileType::Image(ImageFormat::Png));
    assert_eq!(FileType::from_path("scan.bmp"), FileType::Image(ImageFormat::Bmp));
    assert_eq!(FileType::from_path("scan.tiff"), FileType::Image(ImageFormat::Tiff));
    assert_eq!(FileType::from_path("scan.tif"), FileType::Image(ImageFormat::Tiff));
    assert_eq!(FileType::from_path("scan.gif"), FileType::Image(ImageFormat::Gif));
    assert_eq!(FileType::from_path("scan.webp"), FileType::Image(ImageFormat::Webp));
}

#[test]
fn classifies_documents_and_archives() {
    assert_eq!(FileType::from_path("/data/in/report.pdf"), FileType::Pdf);
    assert_eq!(FileType::from_path("letter.docx"), FileType::Docx);
    assert_eq!(FileType::from_path("table.xlsx"), FileType::Xlsx);
    assert_eq!(FileType::from_path("table.xls"), FileType::Xls);
    assert_eq!(FileType::from_path("bundle.zip"), FileType::Archive(ArchiveFormat::Zip));
    assert_eq!(FileType::from_path("bundle.tar"), FileType::Archive(ArchiveFormat::Tar));
    assert_eq!(FileType::from_path("bundle.rar"), FileType::Archive(ArchiveFormat::Rar));
}

#[test]
fn classification_ignores_letter_case() {
    assert_eq!(FileType::from_path("SCAN.JPG"), FileType::Image(ImageFormat::Jpeg));
    assert_eq!(FileType::from_path("Report.PdF"), FileType::Pdf);
    assert_eq!(FileType::from_path("a/b/Table.XLSX"), FileType::Xlsx);
}

#[test]
fn unknown_or_missing_extension_is_unsupported() {
    assert_eq!(FileType::from_path("notes.txt"), FileType::Unsupported);
    assert_eq!(FileType::from_path("README"), FileType::Unsupported);
    assert_eq!(FileType::from_path(""), FileType::Unsupported);
    assert_eq!(FileType::from_path(".pdf"), FileType::Unsupported);
    assert_eq!(FileType::from_path("dir.pdf/file"), FileType::Unsupported);
    assert_eq!(FileType::from_path("archive.tar.gz"), FileType::Unsupported);
    assert_eq!(FileType::from_path("file."), FileType::Unsupported);
    assert_eq!(FileType::from_path(".."), FileType::Unsupported);
    assert_eq!(FileType::from_path("a/.."), FileType::Unsupported);
}

#[test]
fn file_name_is_last_named_component() {
    assert_eq!(FileType::from_path("photo.png/"), FileType::Image(ImageFormat::Png));
    assert_eq!(FileType::from_path("photo.png/."), FileType::Image(ImageFormat::Png));
    assert_eq!(FileType::from_path("a//b/./doc.v2.pdf"), FileType::Pdf);
    assert_eq!(FileType::from_path(".hidden.gif"), FileType::Image(ImageFormat::Gif));
}

#[test]
fn classification_agrees_with_std_path_extension() {
    let samples = [
        "a.pdf", "a.PDF", ".pdf", "..", ".", "", "/", "a/", "a/.", "a/..", "x.y/z", "x.y/z.png",
        "photo.png/", "photo.png/.", "photo.png//", "./x.jpg", "a..tif", "a.", "...", ".a.b",
        "dir/.hidden", "dir/.hidden.zip", "weird.ZiP", "no_ext", "trailing.dot.", "a/b.c/d.e/f.rar",
    ];
    for s in samples {
        let ext = std::path::Path::new(s)
            .extension()
            .and_then(|e| e.to_str())
            .map(|e| e.to_lowercase());
        let expected = match ext.as_deref() {
            Some("jpg") | Some("jpeg") => FileType::Image(ImageFormat::Jpeg),
            Some("png") => FileType::Image(ImageFormat::Png),
            Some("bmp") => FileType::Image(ImageFormat::Bmp),
            Some("tiff") | Some("tif") => FileType::Image(ImageFormat::Tiff),
            Some("gif") => FileType::Image(ImageFormat::Gif),
            Some("webp") => FileType::Image(ImageFormat::Webp),
            Some("pdf") => FileType::Pdf,
            Some("docx") => FileType::Docx,
            Some("xlsx") => FileType::Xlsx,
            Some("xls") => FileType::Xls,
            Some("zip") => FileType::Archive(ArchiveFormat::Zip),
            Some("tar") => FileType::Archive(ArchiveFormat::Tar),
            Some("rar") => FileType::Archive(ArchiveFormat::Rar),
            _ => FileType::Unsupported,
        };
        assert_eq!(FileType::from_path(s), expected, "path {:?}", s);
    }
}

#[test]
fn labels_of_kinds() {
    assert_eq!(FileType::Image(ImageFormat::Jpeg).to_string(), "Image (Jpeg)");
    assert_eq!(FileType::Image(ImageFormat::Webp).to_string(), "Image (Webp)");
    assert_eq!(FileType::Image(ImageFormat::Unknown).to_string(), "Image (Unknown)");
    assert_eq!(FileType::Pdf.to_string(), "PDF");
    assert_eq!(FileType::Docx.to_string(), "DOCX");
    assert_eq!(FileType::Xlsx.to_string(), "XLSX");
    assert_eq!(FileType::Xls.to_string(), "XLS");
    assert_eq!(FileType::Archive(ArchiveFormat::Rar).to_string(), "Archive (Rar)");
    assert_eq!(FileType::Unsupported.to_string(), "Unsupported");
}

#[test]
fn ascii_folding_classifies_as_full_case_folding_does() {
    // Outside ASCII only the Kelvin sign has a lower-case form made of ASCII
    // letters, and no recognized extension holds a `k`.
    for code in 0x80u32..=0x10FFFF {
        if let Some(c) = char::from_u32(code) {
            let lower: String = c.to_lowercase().collect();
            if lower.is_ascii() {
                assert_eq!(lower, "k", "U+{:04X}", code);
            }
        }
    }
    for ext in [
        "jpg", "jpeg", "png", "bmp", "tiff", "tif", "gif", "webp", "pdf", "docx", "xlsx", "xls",
        "zip", "tar", "rar",
    ] {
        assert!(!ext.contains('k'));
        let upper = format!("file.{}", ext.to_uppercase());
        let lower = format!("file.{}", ext);
        assert_eq!(FileType::from_path(&upper), FileType::from_path(&lower));
        assert_ne!(FileType::from_path(&lower), FileType::Unsupported);
    }
    assert_eq!(FileType::from_path("file.\u{212A}df"), FileType::Unsupported);
    assert_eq!(FileType::from_path("file.G\u{130}F"), FileType::Unsupported);
}
