//! Text extraction from batches of documents.
//!
//! The library classifies files by kind, reads what an OCR engine prints,
//! decides step by step how the text of an image, a PDF, a word-processing
//! document or a spreadsheet is extracted, records the outcome of each file
//! of a batch, and lays out searchable PDFs. It touches neither files nor
//! processes: it says what is to be done, and is told what came of it.

pub mod text;
pub mod split;
pub mod numbers;
pub mod file_type;
pub mod ocr_engine;
pub mod documents;
pub mod file_processors;
pub mod pdf_text;
pub mod pdf_creator;
pub mod batch;
pub mod report;
pub mod summary;
pub mod report_text;
