//! Classification of files by the extension of their name.
//!
//! A path is text whose components are separated by `/`. Its file name is
//! the last component that is neither empty nor `.`; a path whose last such
//! component is `..` has no file name. The extension is what follows the
//! last `.` of the file name, provided that something precedes that dot.

use vstd::prelude::*;
use crate::text::{ascii_lowercase, chars_of, chars_are, chars_ascii_lowercase, sub_chars,
    append_str, string_of, text_of, chars_text_of};
use crate::split::{split, split_chars, views};

verus! {

#[derive(Debug, Clone, Copy, PartialEq, Eq, Structural)]
pub enum ImageFormat {
    Jpeg,
    Png,
    Bmp,
    Tiff,
    Gif,
    Webp,
    Unknown,
}

#[derive(Debug, Clone, Copy, PartialEq, Eq, Structural)]
pub enum ArchiveFormat {
    Zip,
    Tar,
    Rar,
    Unknown,
}

/// The kinds of file that the library tells apart.
#[derive(Debug, Clone, Copy, PartialEq, Eq, Structural)]
pub enum FileType {
    Image(ImageFormat),
    Pdf,
    Docx,
    Xlsx,
    Xls,
    Archive(ArchiveFormat),
    Unsupported,
}

// ---------------------------------------------------------------------------
// File name and extension
// ---------------------------------------------------------------------------

/// The last of `parts` that is neither empty nor `.`.
pub open spec fn last_component(parts: Seq<Seq<char>>) -> Option<Seq<char>>
    decreases parts.len(),
{
    if parts.len() == 0 {
        None
    } else if parts.last().len() == 0 || parts.last() == seq!['.'] {
        last_component(parts.drop_last())
    } else {
        Some(parts.last())
    }
}

/// The file name of `path`, if it has one.
pub open spec fn file_name(path: Seq<char>) -> Option<Seq<char>> {
    match last_component(split(path, '/')) {
        Some(c) => if c == seq!['.', '.'] {
            None
        } else {
            Some(c)
        },
        None => None,
    }
}

/// The index of the last occurrence of `c` in `s`, or -1 if there is none.
pub open spec fn last_index_of(s: Seq<char>, c: char) -> int
    decreases s.len(),
{
    if s.len() == 0 {
        -1
    } else if s.last() == c {
        s.len() - 1
    } else {
        last_index_of(s.drop_last(), c)
    }
}

/// `last_index_of` is the one position that holds `c` and that no
/// occurrence follows, or -1 where `c` does not occur.
pub proof fn lemma_last_index_of(s: Seq<char>, c: char, k: int)
    requires
        -1 <= k < s.len(),
        forall|j: int| k < j < s.len() ==> s[j] != c,
        k >= 0 ==> s[k] == c,
    ensures
        last_index_of(s, c) == k,
    decreases s.len(),
{
    if s.len() == 0 {
    } else if k == s.len() - 1 {
    } else {
        let t = s.drop_last();
        assert(s.last() == s[s.len() - 1]);
        assert forall|j: int| k < j < t.len() implies t[j] != c by {
            assert(t[j] == s[j]);
        }
        if k >= 0 {
            assert(t[k] == s[k]);
        }
        lemma_last_index_of(t, c, k);
    }
}

/// The extension of a file name: what follows its last `.`, unless the name
/// has no `.` or only one at its very start.
pub open spec fn name_extension(name: Seq<char>) -> Option<Seq<char>> {
    let k = last_index_of(name, '.');
    if k <= 0 {
        None
    } else {
        Some(name.skip(k + 1))
    }
}

/// The stem of a file name: what precedes its last `.`, or the whole name
/// where it has no `.` or only one at its very start.
pub open spec fn name_stem(name: Seq<char>) -> Seq<char> {
    let k = last_index_of(name, '.');
    if k <= 0 {
        name
    } else {
        name.take(k)
    }
}

/// The stem of the file name of `path`.
pub open spec fn file_stem(path: Seq<char>) -> Option<Seq<char>> {
    match file_name(path) {
        Some(name) => Some(name_stem(name)),
        None => None,
    }
}

/// The extension of the file name of `path`.
pub open spec fn extension(path: Seq<char>) -> Option<Seq<char>> {
    match file_name(path) {
        Some(name) => name_extension(name),
        None => None,
    }
}

// ---------------------------------------------------------------------------
// Classification
// ---------------------------------------------------------------------------

/// The kind that a lower-case extension stands for.
pub open spec fn classify(ext: Seq<char>) -> FileType {
    if ext == "jpg"@ || ext == "jpeg"@ {
        FileType::Image(ImageFormat::Jpeg)
    } else if ext == "png"@ {
        FileType::Image(ImageFormat::Png)
    } else if ext == "bmp"@ {
        FileType::Image(ImageFormat::Bmp)
    } else if ext == "tiff"@ || ext == "tif"@ {
        FileType::Image(ImageFormat::Tiff)
    } else if ext == "gif"@ {
        FileType::Image(ImageFormat::Gif)
    } else if ext == "webp"@ {
        FileType::Image(ImageFormat::Webp)
    } else if ext == "pdf"@ {
        FileType::Pdf
    } else if ext == "docx"@ {
        FileType::Docx
    } else if ext == "xlsx"@ {
        FileType::Xlsx
    } else if ext == "xls"@ {
        FileType::Xls
    } else if ext == "zip"@ {
        FileType::Archive(ArchiveFormat::Zip)
    } else if ext == "tar"@ {
        FileType::Archive(ArchiveFormat::Tar)
    } else if ext == "rar"@ {
        FileType::Archive(ArchiveFormat::Rar)
    } else {
        FileType::Unsupported
    }
}

/// The extensions that stand for a kind, in lower case.
pub open spec fn recognized_extensions() -> Set<Seq<char>> {
    set![
        "jpg"@,
        "jpeg"@,
        "png"@,
        "bmp"@,
        "tiff"@,
        "tif"@,
        "gif"@,
        "webp"@,
        "pdf"@,
        "docx"@,
        "xlsx"@,
        "xls"@,
        "zip"@,
        "tar"@,
        "rar"@
    ]
}

/// The kind of the file at `path`: that of its extension, letter case
/// aside, and `Unsupported` where the path has no extension.
pub open spec fn file_type_of(path: Seq<char>) -> FileType {
    match extension(path) {
        Some(ext) => classify(ascii_lowercase(ext)),
        None => FileType::Unsupported,
    }
}

/// A lower-case extension outside the recognized ones is unsupported, and
/// each recognized one is supported.
pub proof fn lemma_classify_unsupported(ext: Seq<char>)
    ensures
        classify(ext) == FileType::Unsupported <==> !recognized_extensions().contains(ext),
{
}

/// A file is unsupported exactly when its path has no extension or has one
/// that, in lower case, is not recognized.
pub proof fn lemma_unrecognized_is_unsupported(path: Seq<char>)
    ensures
        file_type_of(path) == FileType::Unsupported <==> (extension(path) matches Some(ext)
            ==> !recognized_extensions().contains(ascii_lowercase(ext))),
{
    if let Some(ext) = extension(path) {
        lemma_classify_unsupported(ascii_lowercase(ext));
    }
}

/// The kind that the lower-case extension `ext` stands for.
pub fn classify_extension(ext: &Vec<char>) -> (t: FileType)
    ensures
        t == classify(ext@),
{
    if chars_are(ext, "jpg") || chars_are(ext, "jpeg") {
        FileType::Image(ImageFormat::Jpeg)
    } else if chars_are(ext, "png") {
        FileType::Image(ImageFormat::Png)
    } else if chars_are(ext, "bmp") {
        FileType::Image(ImageFormat::Bmp)
    } else if chars_are(ext, "tiff") || chars_are(ext, "tif") {
        FileType::Image(ImageFormat::Tiff)
    } else if chars_are(ext, "gif") {
        FileType::Image(ImageFormat::Gif)
    } else if chars_are(ext, "webp") {
        FileType::Image(ImageFormat::Webp)
    } else if chars_are(ext, "pdf") {
        FileType::Pdf
    } else if chars_are(ext, "docx") {
        FileType::Docx
    } else if chars_are(ext, "xlsx") {
        FileType::Xlsx
    } else if chars_are(ext, "xls") {
        FileType::Xls
    } else if chars_are(ext, "zip") {
        FileType::Archive(ArchiveFormat::Zip)
    } else if chars_are(ext, "tar") {
        FileType::Archive(ArchiveFormat::Tar)
    } else if chars_are(ext, "rar") {
        FileType::Archive(ArchiveFormat::Rar)
    } else {
        FileType::Unsupported
    }
}

/// The file name of `path`, if it has one.
pub fn file_name_chars(path: &Vec<char>) -> (r: Option<Vec<char>>)
    ensures
        chars_text_of(r) == file_name(path@),
{
    let parts = split_chars(path, '/');
    let mut i: usize = parts.len();
    assert(views(parts@).take(i as int) =~= views(parts@));
    while i > 0
        invariant
            i <= parts.len(),
            views(parts@) == split(path@, '/'),
            last_component(views(parts@).take(i as int)) == last_component(views(parts@)),
        decreases i,
    {
        let part = &parts[i - 1];
        proof {
            let cur = views(parts@).take(i as int);
            assert(cur.last() == part@);
            assert(cur.drop_last() =~= views(parts@).take(i - 1));
        }
        if part.len() == 0 || chars_are(part, ".") {
            proof {
                reveal_strlit(".");
                assert("."@ =~= seq!['.']);
            }
            i -= 1;
        } else {
            proof {
                reveal_strlit(".");
                reveal_strlit("..");
                assert("."@ =~= seq!['.']);
                assert(".."@ =~= seq!['.', '.']);
            }
            if chars_are(part, "..") {
                return None;
            }
            return Some(sub_chars(part, 0, part.len()));
        }
    }
    None
}

/// The extension of the file name `name`, if it has one.
pub fn name_extension_chars(name: &Vec<char>) -> (r: Option<Vec<char>>)
    ensures
        chars_text_of(r) == name_extension(name@),
{
    let mut i: usize = name.len();
    while i > 0 && name[i - 1] != '.'
        invariant
            i <= name.len(),
            forall|j: int| i <= j < name.len() ==> name@[j] != '.',
        decreases i,
    {
        i -= 1;
    }
    proof {
        lemma_last_index_of(name@, '.', i - 1);
    }
    if i <= 1 {
        None
    } else {
        let ext = sub_chars(name, i, name.len());
        assert(ext@ =~= name@.skip(i as int));
        Some(ext)
    }
}

/// The stem of the file name `name`.
pub fn name_stem_chars(name: &Vec<char>) -> (r: Vec<char>)
    ensures
        r@ == name_stem(name@),
{
    let mut i: usize = name.len();
    while i > 0 && name[i - 1] != '.'
        invariant
            i <= name.len(),
            forall|j: int| i <= j < name.len() ==> name@[j] != '.',
        decreases i,
    {
        i -= 1;
    }
    proof {
        lemma_last_index_of(name@, '.', i - 1);
    }
    if i <= 1 {
        let r = sub_chars(name, 0, name.len());
        assert(r@ =~= name@);
        r
    } else {
        let r = sub_chars(name, 0, i - 1);
        assert(r@ =~= name@.take(i - 1));
        r
    }
}

/// The stem of the file name of `path`, if it has a file name.
pub fn file_stem_of(path: &str) -> (r: Option<String>)
    ensures
        text_of(r) == file_stem(path@),
{
    match file_name_chars(&chars_of(path)) {
        Some(name) => Some(string_of(&name_stem_chars(&name))),
        None => None,
    }
}

impl ImageFormat {
    /// The name of the format.
    pub open spec fn name(self) -> Seq<char> {
        match self {
            ImageFormat::Jpeg => "Jpeg"@,
            ImageFormat::Png => "Png"@,
            ImageFormat::Bmp => "Bmp"@,
            ImageFormat::Tiff => "Tiff"@,
            ImageFormat::Gif => "Gif"@,
            ImageFormat::Webp => "Webp"@,
            ImageFormat::Unknown => "Unknown"@,
        }
    }

    fn name_str(self) -> (r: &'static str)
        ensures
            r@ == self.name(),
    {
        match self {
            ImageFormat::Jpeg => "Jpeg",
            ImageFormat::Png => "Png",
            ImageFormat::Bmp => "Bmp",
            ImageFormat::Tiff => "Tiff",
            ImageFormat::Gif => "Gif",
            ImageFormat::Webp => "Webp",
            ImageFormat::Unknown => "Unknown",
        }
    }
}

impl ArchiveFormat {
    /// The name of the format.
    pub open spec fn name(self) -> Seq<char> {
        match self {
            ArchiveFormat::Zip => "Zip"@,
            ArchiveFormat::Tar => "Tar"@,
            ArchiveFormat::Rar => "Rar"@,
            ArchiveFormat::Unknown => "Unknown"@,
        }
    }

    fn name_str(self) -> (r: &'static str)
        ensures
            r@ == self.name(),
    {
        match self {
            ArchiveFormat::Zip => "Zip",
            ArchiveFormat::Tar => "Tar",
            ArchiveFormat::Rar => "Rar",
            ArchiveFormat::Unknown => "Unknown",
        }
    }
}

impl FileType {
    /// The label under which the kind is reported.
    pub open spec fn label(self) -> Seq<char> {
        match self {
            FileType::Image(format) => "Image ("@ + format.name() + ")"@,
            FileType::Pdf => "PDF"@,
            FileType::Docx => "DOCX"@,
            FileType::Xlsx => "XLSX"@,
            FileType::Xls => "XLS"@,
            FileType::Archive(format) => "Archive ("@ + format.name() + ")"@,
            FileType::Unsupported => "Unsupported"@,
        }
    }

    /// Whether the kind is one that the library extracts text from or at
    /// least recognizes.
    pub open spec fn is_supported(self) -> bool {
        self != FileType::Unsupported
    }

    /// The kind of the file at `path`.
    pub fn from_path(path: &str) -> (t: FileType)
        ensures
            t == file_type_of(path@),
    {
        let chars = chars_of(path);
        match file_name_chars(&chars) {
            Some(name) => match name_extension_chars(&name) {
                Some(ext) => {
                    let lower = chars_ascii_lowercase(&ext);
                    classify_extension(&lower)
                },
                None => FileType::Unsupported,
            },
            None => FileType::Unsupported,
        }
    }

    /// The label under which the kind is reported.
    pub fn to_string(&self) -> (s: String)
        ensures
            s@ == self.label(),
    {
        let mut out: Vec<char> = Vec::new();
        match self {
            FileType::Image(format) => {
                append_str(&mut out, "Image (");
                append_str(&mut out, format.name_str());
                append_str(&mut out, ")");
            },
            FileType::Pdf => {
                append_str(&mut out, "PDF");
            },
            FileType::Docx => {
                append_str(&mut out, "DOCX");
            },
            FileType::Xlsx => {
                append_str(&mut out, "XLSX");
            },
            FileType::Xls => {
                append_str(&mut out, "XLS");
            },
            FileType::Archive(format) => {
                append_str(&mut out, "Archive (");
                append_str(&mut out, format.name_str());
                append_str(&mut out, ")");
            },
            FileType::Unsupported => {
                append_str(&mut out, "Unsupported");
            },
        }
        assert(out@ =~= self.label());
        string_of(&out)
    }
}

} // verus!
