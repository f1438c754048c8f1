//! Word-processing documents and spreadsheets as the library sees them, and
//! the text that it draws from them.
//!
//! A container parser turns a file into one of these trees; each kind of
//! node that carries no text is an `Other`.

use vstd::prelude::*;
use crate::text::{is_whitespace, char_is_whitespace, append_str};
use crate::numbers::{signed_decimal, push_signed_decimal};

verus! {

// ---------------------------------------------------------------------------
// Word-processing documents
// ---------------------------------------------------------------------------

/// A part of a run.
pub enum RunPart {
    /// A piece of text.
    Text(String),
    /// Anything else: a break, a tab, a drawing.
    Other,
}

/// A part of a paragraph.
pub enum ParagraphPart {
    /// A run: parts that share one format.
    Run(Vec<RunPart>),
    /// Anything else: a bookmark, a hyperlink, a comment mark.
    Other,
}

/// A part of a table cell.
pub enum CellPart {
    /// A paragraph, given by its parts.
    Paragraph(Vec<ParagraphPart>),
    /// Anything else: a nested table.
    Other,
}

/// A table cell.
pub struct TableCell {
    pub parts: Vec<CellPart>,
}

/// A table row.
pub struct TableRow {
    pub cells: Vec<TableCell>,
}

/// A block of the body of a document.
pub enum DocumentBlock {
    /// A paragraph, given by its parts.
    Paragraph(Vec<ParagraphPart>),
    /// A table, given by its rows.
    Table(Vec<TableRow>),
    /// Anything else: a section break, a bookmark.
    Other,
}

/// The body of a word-processing document.
pub struct Document {
    pub blocks: Vec<DocumentBlock>,
}

/// The text of a run: each piece of text followed by a space.
pub open spec fn run_text(parts: Seq<RunPart>) -> Seq<char>
    decreases parts.len(),
{
    if parts.len() == 0 {
        Seq::<char>::empty()
    } else {
        run_text(parts.drop_last()) + match parts.last() {
            RunPart::Text(t) => t@ + " "@,
            RunPart::Other => Seq::<char>::empty(),
        }
    }
}

/// The text of the runs of a paragraph, without a line end.
pub open spec fn paragraph_text(parts: Seq<ParagraphPart>) -> Seq<char>
    decreases parts.len(),
{
    if parts.len() == 0 {
        Seq::<char>::empty()
    } else {
        paragraph_text(parts.drop_last()) + match parts.last() {
            ParagraphPart::Run(run) => run_text(run@),
            ParagraphPart::Other => Seq::<char>::empty(),
        }
    }
}

/// The text of the paragraphs of a cell, without the tab that ends it.
pub open spec fn cell_text(parts: Seq<CellPart>) -> Seq<char>
    decreases parts.len(),
{
    if parts.len() == 0 {
        Seq::<char>::empty()
    } else {
        cell_text(parts.drop_last()) + match parts.last() {
            CellPart::Paragraph(p) => paragraph_text(p@),
            CellPart::Other => Seq::<char>::empty(),
        }
    }
}

/// The text of the cells of a row, each followed by a tab, without the line
/// end that ends the row.
pub open spec fn row_text(cells: Seq<TableCell>) -> Seq<char>
    decreases cells.len(),
{
    if cells.len() == 0 {
        Seq::<char>::empty()
    } else {
        row_text(cells.drop_last()) + cell_text(cells.last().parts@) + "\t"@
    }
}

/// The text of the rows of a table, each followed by a line end.
pub open spec fn table_text(rows: Seq<TableRow>) -> Seq<char>
    decreases rows.len(),
{
    if rows.len() == 0 {
        Seq::<char>::empty()
    } else {
        table_text(rows.drop_last()) + row_text(rows.last().cells@) + "\n"@
    }
}

/// The text of one block: a paragraph gives its runs and a line end, a
/// table its rows, anything else nothing.
pub open spec fn block_text(block: DocumentBlock) -> Seq<char> {
    match block {
        DocumentBlock::Paragraph(p) => paragraph_text(p@) + "\n"@,
        DocumentBlock::Table(rows) => table_text(rows@),
        DocumentBlock::Other => Seq::<char>::empty(),
    }
}

/// The text of a run of blocks.
pub open spec fn blocks_text(blocks: Seq<DocumentBlock>) -> Seq<char>
    decreases blocks.len(),
{
    if blocks.len() == 0 {
        Seq::<char>::empty()
    } else {
        blocks_text(blocks.drop_last()) + block_text(blocks.last())
    }
}

fn append_run(out: &mut Vec<char>, parts: &Vec<RunPart>)
    ensures
        final(out)@ == old(out)@ + run_text(parts@),
{
    let mut i: usize = 0;
    assert(old(out)@ + run_text(parts@.take(0)) =~= old(out)@);
    while i < parts.len()
        invariant
            i <= parts.len(),
            out@ == old(out)@ + run_text(parts@.take(i as int)),
        decreases parts.len() - i,
    {
        proof {
            let next = parts@.take(i + 1);
            assert(next.drop_last() =~= parts@.take(i as int));
            assert(next.last() == parts@[i as int]);
        }
        let ghost before = out@;
        match &parts[i] {
            RunPart::Text(t) => {
                append_str(out, t.as_str());
                append_str(out, " ");
                assert(out@ =~= before + (t@ + " "@));
            },
            RunPart::Other => {
                assert(out@ =~= before + Seq::<char>::empty());
            },
        }
        assert(out@ =~= old(out)@ + run_text(parts@.take(i + 1)));
        i += 1;
    }
    assert(parts@.take(parts.len() as int) =~= parts@);
}

fn append_paragraph(out: &mut Vec<char>, parts: &Vec<ParagraphPart>)
    ensures
        final(out)@ == old(out)@ + paragraph_text(parts@),
{
    let mut i: usize = 0;
    assert(old(out)@ + paragraph_text(parts@.take(0)) =~= old(out)@);
    while i < parts.len()
        invariant
            i <= parts.len(),
            out@ == old(out)@ + paragraph_text(parts@.take(i as int)),
        decreases parts.len() - i,
    {
        proof {
            let next = parts@.take(i + 1);
            assert(next.drop_last() =~= parts@.take(i as int));
            assert(next.last() == parts@[i as int]);
        }
        let ghost before = out@;
        match &parts[i] {
            ParagraphPart::Run(run) => {
                append_run(out, run);
            },
            ParagraphPart::Other => {
                assert(out@ =~= before + Seq::<char>::empty());
            },
        }
        assert(out@ =~= old(out)@ + paragraph_text(parts@.take(i + 1)));
        i += 1;
    }
    assert(parts@.take(parts.len() as int) =~= parts@);
}

fn append_cell(out: &mut Vec<char>, parts: &Vec<CellPart>)
    ensures
        final(out)@ == old(out)@ + cell_text(parts@),
{
    let mut i: usize = 0;
    assert(old(out)@ + cell_text(parts@.take(0)) =~= old(out)@);
    while i < parts.len()
        invariant
            i <= parts.len(),
            out@ == old(out)@ + cell_text(parts@.take(i as int)),
        decreases parts.len() - i,
    {
        proof {
            let next = parts@.take(i + 1);
            assert(next.drop_last() =~= parts@.take(i as int));
            assert(next.last() == parts@[i as int]);
        }
        let ghost before = out@;
        match &parts[i] {
            CellPart::Paragraph(p) => {
                append_paragraph(out, p);
            },
            CellPart::Other => {
                assert(out@ =~= before + Seq::<char>::empty());
            },
        }
        assert(out@ =~= old(out)@ + cell_text(parts@.take(i + 1)));
        i += 1;
    }
    assert(parts@.take(parts.len() as int) =~= parts@);
}

fn append_row(out: &mut Vec<char>, cells: &Vec<TableCell>)
    ensures
        final(out)@ == old(out)@ + row_text(cells@),
{
    let mut i: usize = 0;
    assert(old(out)@ + row_text(cells@.take(0)) =~= old(out)@);
    while i < cells.len()
        invariant
            i <= cells.len(),
            out@ == old(out)@ + row_text(cells@.take(i as int)),
        decreases cells.len() - i,
    {
        proof {
            let next = cells@.take(i + 1);
            assert(next.drop_last() =~= cells@.take(i as int));
            assert(next.last() == cells@[i as int]);
        }
        let ghost before = out@;
        append_cell(out, &cells[i].parts);
        append_str(out, "\t");
        assert(out@ =~= before + cell_text(cells@[i as int].parts@) + "\t"@);
        assert(out@ =~= old(out)@ + row_text(cells@.take(i + 1)));
        i += 1;
    }
    assert(cells@.take(cells.len() as int) =~= cells@);
}

fn append_table(out: &mut Vec<char>, rows: &Vec<TableRow>)
    ensures
        final(out)@ == old(out)@ + table_text(rows@),
{
    let mut i: usize = 0;
    assert(old(out)@ + table_text(rows@.take(0)) =~= old(out)@);
    while i < rows.len()
        invariant
            i <= rows.len(),
            out@ == old(out)@ + table_text(rows@.take(i as int)),
        decreases rows.len() - i,
    {
        proof {
            let next = rows@.take(i + 1);
            assert(next.drop_last() =~= rows@.take(i as int));
            assert(next.last() == rows@[i as int]);
        }
        let ghost before = out@;
        append_row(out, &rows[i].cells);
        append_str(out, "\n");
        assert(out@ =~= before + row_text(rows@[i as int].cells@) + "\n"@);
        assert(out@ =~= old(out)@ + table_text(rows@.take(i + 1)));
        i += 1;
    }
    assert(rows@.take(rows.len() as int) =~= rows@);
}

impl Document {
    /// The text of the document: that of its blocks, in order.
    pub open spec fn text(&self) -> Seq<char> {
        blocks_text(self.blocks@)
    }

    /// The text of the document: the pieces of text of each paragraph, each
    /// followed by a space, with a line end after the paragraph; and for
    /// each table the same pieces cell by cell, with a tab after each cell
    /// and a line end after each row.
    pub fn extract_text(&self) -> (r: Vec<char>)
        ensures
            r@ == self.text(),
    {
        let mut out: Vec<char> = Vec::new();
        let mut i: usize = 0;
        assert(out@ =~= blocks_text(self.blocks@.take(0)));
        while i < self.blocks.len()
            invariant
                i <= self.blocks.len(),
                out@ == blocks_text(self.blocks@.take(i as int)),
            decreases self.blocks.len() - i,
        {
            proof {
                let next = self.blocks@.take(i + 1);
                assert(next.drop_last() =~= self.blocks@.take(i as int));
                assert(next.last() == self.blocks@[i as int]);
            }
            let ghost before = out@;
            match &self.blocks[i] {
                DocumentBlock::Paragraph(p) => {
                    append_paragraph(&mut out, p);
                    append_str(&mut out, "\n");
                    assert(out@ =~= before + (paragraph_text(p@) + "\n"@));
                },
                DocumentBlock::Table(rows) => {
                    append_table(&mut out, rows);
                },
                DocumentBlock::Other => {
                    assert(out@ =~= before + Seq::<char>::empty());
                },
            }
            i += 1;
        }
        assert(self.blocks@.take(self.blocks.len() as int) =~= self.blocks@);
        out
    }
}

// ---------------------------------------------------------------------------
// Counting words
// ---------------------------------------------------------------------------

/// Whether a word starts at index `i` of `s`: the character there is no
/// white space, and it is the first or follows white space.
pub open spec fn word_starts_at(s: Seq<char>, i: int) -> bool {
    0 <= i < s.len() && !is_whitespace(s[i]) && (i == 0 || is_whitespace(s[i - 1]))
}

/// The number of words in `s`: of its maximal runs of characters that are
/// no white space.
pub open spec fn word_count(s: Seq<char>) -> nat
    decreases s.len(),
{
    if s.len() == 0 {
        0
    } else {
        word_count(s.drop_last()) + if word_starts_at(s, s.len() - 1) {
            1nat
        } else {
            0nat
        }
    }
}

/// The number of words in `s`.
pub fn count_words(s: &Vec<char>) -> (n: usize)
    ensures
        n == word_count(s@),
{
    let mut n: usize = 0;
    let mut i: usize = 0;
    let mut after_space: bool = true;
    while i < s.len()
        invariant
            i <= s.len(),
            n == word_count(s@.take(i as int)),
            n <= i,
            after_space == (i == 0 || is_whitespace(s@[i - 1])),
        decreases s.len() - i,
    {
        let space = char_is_whitespace(s[i]);
        proof {
            let next = s@.take(i + 1);
            assert(next.drop_last() =~= s@.take(i as int));
            assert(next[i as int] == s@[i as int]);
            if i > 0 {
                assert(next[i - 1] == s@[i - 1]);
            }
            assert(word_starts_at(next, i as int) == (!space && after_space));
        }
        if !space && after_space {
            n += 1;
        }
        after_space = space;
        i += 1;
    }
    assert(s@.take(s.len() as int) =~= s@);
    n
}

/// The number of pages that a text of `words` words is taken to fill: one
/// for every five hundred words or part of it, and at least one.
pub open spec fn estimated_pages(words: nat) -> nat {
    if words <= 500 {
        1
    } else {
        (words + 499) / 500
    }
}

/// The number of pages that a text of `words` words is taken to fill.
pub fn estimate_pages(words: usize) -> (pages: usize)
    ensures
        pages == estimated_pages(words as nat),
        pages >= 1,
{
    if words <= 500 {
        1
    } else {
        (words - 1) / 500 + 1
    }
}

// ---------------------------------------------------------------------------
// Spreadsheets
// ---------------------------------------------------------------------------

/// The value of a spreadsheet cell.
pub enum CellValue {
    /// No value.
    Empty,
    /// A string.
    Text(String),
    /// A whole number.
    Integer(i64),
    /// Any other number, as it is written.
    Number(String),
    /// A truth value.
    Boolean(bool),
    /// A date or a time, as it is written.
    DateTime(String),
    /// A duration, as it is written.
    Duration(String),
    /// An error, by its name.
    Error(String),
}

/// One sheet of a workbook.
pub struct Sheet {
    pub name: String,
    /// The rows of the sheet, or `None` where they cannot be had.
    pub rows: Option<Vec<Vec<CellValue>>>,
}

/// A workbook.
pub struct Workbook {
    pub sheets: Vec<Sheet>,
}

/// How a cell value is written.
pub open spec fn cell_value_text(value: CellValue) -> Seq<char> {
    match value {
        CellValue::Empty => Seq::<char>::empty(),
        CellValue::Text(s) => s@,
        CellValue::Integer(i) => signed_decimal(i as int),
        CellValue::Number(s) => s@,
        CellValue::Boolean(b) => if b {
            "true"@
        } else {
            "false"@
        },
        CellValue::DateTime(s) => s@,
        CellValue::Duration(s) => s@,
        CellValue::Error(name) => "[Error: "@ + name@ + "]"@,
    }
}

/// The cells of a row, each followed by a tab.
pub open spec fn sheet_row_text(cells: Seq<CellValue>) -> Seq<char>
    decreases cells.len(),
{
    if cells.len() == 0 {
        Seq::<char>::empty()
    } else {
        sheet_row_text(cells.drop_last()) + cell_value_text(cells.last()) + "\t"@
    }
}

/// The rows of a sheet, each followed by a line end.
pub open spec fn sheet_rows_text(rows: Seq<Vec<CellValue>>) -> Seq<char>
    decreases rows.len(),
{
    if rows.len() == 0 {
        Seq::<char>::empty()
    } else {
        sheet_rows_text(rows.drop_last()) + sheet_row_text(rows.last()@) + "\n"@
    }
}

/// The line that marks the start of the sheet called `name`.
pub open spec fn sheet_marker(name: Seq<char>) -> Seq<char> {
    "\n=== Sheet: "@ + name + " ===\n"@
}

/// The text of a sheet: its marker, then its rows where they can be had.
pub open spec fn sheet_text(sheet: Sheet) -> Seq<char> {
    sheet_marker(sheet.name@) + match sheet.rows {
        Some(rows) => sheet_rows_text(rows@),
        None => Seq::<char>::empty(),
    }
}

/// The text of a run of sheets.
pub open spec fn sheets_text(sheets: Seq<Sheet>) -> Seq<char>
    decreases sheets.len(),
{
    if sheets.len() == 0 {
        Seq::<char>::empty()
    } else {
        sheets_text(sheets.drop_last()) + sheet_text(sheets.last())
    }
}

fn append_cell_value(out: &mut Vec<char>, value: &CellValue)
    ensures
        final(out)@ == old(out)@ + cell_value_text(*value),
{
    match value {
        CellValue::Empty => {
            assert(out@ =~= old(out)@ + Seq::<char>::empty());
        },
        CellValue::Text(s) => {
            append_str(out, s.as_str());
        },
        CellValue::Integer(i) => {
            push_signed_decimal(out, *i);
        },
        CellValue::Number(s) => {
            append_str(out, s.as_str());
        },
        CellValue::Boolean(b) => {
            if *b {
                append_str(out, "true");
            } else {
                append_str(out, "false");
            }
        },
        CellValue::DateTime(s) => {
            append_str(out, s.as_str());
        },
        CellValue::Duration(s) => {
            append_str(out, s.as_str());
        },
        CellValue::Error(name) => {
            append_str(out, "[Error: ");
            append_str(out, name.as_str());
            append_str(out, "]");
            assert(out@ =~= old(out)@ + ("[Error: "@ + name@ + "]"@));
        },
    }
}

fn append_sheet_row(out: &mut Vec<char>, cells: &Vec<CellValue>)
    ensures
        final(out)@ == old(out)@ + sheet_row_text(cells@),
{
    let mut i: usize = 0;
    assert(old(out)@ + sheet_row_text(cells@.take(0)) =~= old(out)@);
    while i < cells.len()
        invariant
            i <= cells.len(),
            out@ == old(out)@ + sheet_row_text(cells@.take(i as int)),
        decreases cells.len() - i,
    {
        proof {
            let next = cells@.take(i + 1);
            assert(next.drop_last() =~= cells@.take(i as int));
            assert(next.last() == cells@[i as int]);
        }
        let ghost before = out@;
        append_cell_value(out, &cells[i]);
        append_str(out, "\t");
        assert(out@ =~= before + cell_value_text(cells@[i as int]) + "\t"@);
        assert(out@ =~= old(out)@ + sheet_row_text(cells@.take(i + 1)));
        i += 1;
    }
    assert(cells@.take(cells.len() as int) =~= cells@);
}

fn append_sheet_rows(out: &mut Vec<char>, rows: &Vec<Vec<CellValue>>)
    ensures
        final(out)@ == old(out)@ + sheet_rows_text(rows@),
{
    let mut i: usize = 0;
    assert(old(out)@ + sheet_rows_text(rows@.take(0)) =~= old(out)@);
    while i < rows.len()
        invariant
            i <= rows.len(),
            out@ == old(out)@ + sheet_rows_text(rows@.take(i as int)),
        decreases rows.len() - i,
    {
        proof {
            let next = rows@.take(i + 1);
            assert(next.drop_last() =~= rows@.take(i as int));
            assert(next.last() == rows@[i as int]);
        }
        let ghost before = out@;
        append_sheet_row(out, &rows[i]);
        append_str(out, "\n");
        assert(out@ =~= before + sheet_row_text(rows@[i as int]@) + "\n"@);
        assert(out@ =~= old(out)@ + sheet_rows_text(rows@.take(i + 1)));
        i += 1;
    }
    assert(rows@.take(rows.len() as int) =~= rows@);
}

impl Workbook {
    /// The text of the workbook: that of its sheets, in order.
    pub open spec fn text(&self) -> Seq<char> {
        sheets_text(self.sheets@)
    }

    /// The text of the workbook: for each sheet a marker line with its
    /// name, then each of its rows, with a tab after each cell and a line
    /// end after each row.
    pub fn extract_text(&self) -> (r: Vec<char>)
        ensures
            r@ == self.text(),
    {
        let mut out: Vec<char> = Vec::new();
        let mut i: usize = 0;
        assert(out@ =~= sheets_text(self.sheets@.take(0)));
        while i < self.sheets.len()
            invariant
                i <= self.sheets.len(),
                out@ == sheets_text(self.sheets@.take(i as int)),
            decreases self.sheets.len() - i,
        {
            proof {
                let next = self.sheets@.take(i + 1);
                assert(next.drop_last() =~= self.sheets@.take(i as int));
                assert(next.last() == self.sheets@[i as int]);
            }
            let ghost before = out@;
            let sheet = &self.sheets[i];
            append_str(&mut out, "\n=== Sheet: ");
            append_str(&mut out, sheet.name.as_str());
            append_str(&mut out, " ===\n");
            assert(out@ =~= before + sheet_marker(sheet.name@));
            match &sheet.rows {
                Some(rows) => {
                    append_sheet_rows(&mut out, rows);
                },
                None => {
                    assert(out@ =~= before + sheet_marker(sheet.name@) + Seq::<char>::empty());
                },
            }
            assert(out@ =~= before + sheet_text(self.sheets@[i as int]));
            i += 1;
        }
        assert(self.sheets@.take(self.sheets.len() as int) =~= self.sheets@);
        out
    }

    /// The number of pages that the workbook counts for: one for each
    /// sheet, and at least one.
    pub open spec fn pages(&self) -> nat {
        if self.sheets@.len() == 0 {
            1
        } else {
            self.sheets@.len()
        }
    }

    /// The number of pages that the workbook counts for.
    pub fn page_count(&self) -> (n: usize)
        ensures
            n == self.pages(),
            n >= 1,
    {
        if self.sheets.len() == 0 {
            1
        } else {
            self.sheets.len()
        }
    }
}

/// Each sheet's marker stands in the text of the sheets.
pub proof fn lemma_sheet_marker_in_text(sheets: Seq<Sheet>, k: int)
    requires
        0 <= k < sheets.len(),
    ensures
        exists|at: int|
            0 <= at && at + sheet_marker(sheets[k].name@).len() <= sheets_text(sheets).len()
                && #[trigger] sheets_text(sheets).subrange(
                at,
                at + sheet_marker(sheets[k].name@).len(),
            ) == sheet_marker(sheets[k].name@),
    decreases sheets.len(),
{
    let head = sheets.drop_last();
    let marker = sheet_marker(sheets[k].name@);
    let whole = sheets_text(sheets);
    if k == sheets.len() - 1 {
        let at = sheets_text(head).len() as int;
        assert(whole.subrange(at, at + marker.len()) =~= marker);
    } else {
        lemma_sheet_marker_in_text(head, k);
        assert(head[k] == sheets[k]);
        let at = choose|at: int|
            0 <= at && at + marker.len() <= sheets_text(head).len() && #[trigger] sheets_text(
                head,
            ).subrange(at, at + marker.len()) == marker;
        assert(whole.subrange(at, at + marker.len()) =~= sheets_text(head).subrange(
            at,
            at + marker.len(),
        ));
    }
}

} // verus!
