//! Text as it is written into a PDF string literal, and the search for a
//! piece of text inside another.

use vstd::prelude::*;
use crate::text::{ascii_lowercase, chars_ascii_lowercase, chars_of};

verus! {

/// The characters that a PDF string literal cannot hold as they are.
pub open spec fn is_reserved(c: char) -> bool {
    c == '\\' || c == '(' || c == ')'
}

/// One character as a string literal holds it: a reserved one behind a
/// backslash, any other as it is.
pub open spec fn escaped_char(c: char) -> Seq<char> {
    if is_reserved(c) {
        seq!['\\', c]
    } else {
        seq![c]
    }
}

/// `s` with a backslash in front of each reserved character.
pub open spec fn escape_pdf_text(s: Seq<char>) -> Seq<char>
    decreases s.len(),
{
    if s.len() == 0 {
        Seq::<char>::empty()
    } else {
        escape_pdf_text(s.drop_last()) + escaped_char(s.last())
    }
}

/// The text that a string literal stands for: a backslash gives way to the
/// character behind it.
pub open spec fn unescape_pdf_text(s: Seq<char>) -> Seq<char>
    decreases s.len(),
{
    if s.len() == 0 {
        Seq::<char>::empty()
    } else if s[0] == '\\' && s.len() >= 2 {
        seq![s[1]] + unescape_pdf_text(s.skip(2))
    } else {
        seq![s[0]] + unescape_pdf_text(s.skip(1))
    }
}

/// Escaping goes piece by piece.
pub proof fn lemma_escape_concat(a: Seq<char>, b: Seq<char>)
    ensures
        escape_pdf_text(a + b) == escape_pdf_text(a) + escape_pdf_text(b),
    decreases b.len(),
{
    if b.len() == 0 {
        assert(a + b =~= a);
        assert(escape_pdf_text(a) + escape_pdf_text(b) =~= escape_pdf_text(a));
    } else {
        assert((a + b).drop_last() =~= a + b.drop_last());
        assert((a + b).last() == b.last());
        lemma_escape_concat(a, b.drop_last());
        assert(escape_pdf_text(a + b) =~= escape_pdf_text(a) + escape_pdf_text(b));
    }
}

/// The escaped text stands for the text it was made from.
pub proof fn lemma_unescape_escape(s: Seq<char>)
    ensures
        unescape_pdf_text(escape_pdf_text(s)) == s,
    decreases s.len(),
{
    if s.len() == 0 {
    } else {
        let head = seq![s[0]];
        let rest = s.drop_first();
        assert(s =~= head + rest);
        lemma_escape_concat(head, rest);
        assert(head.drop_last() =~= Seq::<char>::empty());
        assert(head.last() == s[0]);
        assert(escape_pdf_text(head) == escape_pdf_text(head.drop_last()) + escaped_char(s[0]));
        assert(escape_pdf_text(head) =~= escaped_char(s[0]));
        lemma_unescape_escape(rest);
        let whole = escape_pdf_text(s);
        let tail = escape_pdf_text(rest);
        if is_reserved(s[0]) {
            assert(whole =~= seq!['\\', s[0]] + tail);
            assert(whole.skip(2) =~= tail);
            assert(unescape_pdf_text(whole) =~= seq![s[0]] + rest);
        } else {
            assert(whole =~= seq![s[0]] + tail);
            assert(whole.skip(1) =~= tail);
            assert(unescape_pdf_text(whole) =~= seq![s[0]] + rest);
        }
    }
}

/// In the escaped text every parenthesis stands directly behind a
/// backslash.
pub proof fn lemma_parentheses_follow_backslash(s: Seq<char>, j: int)
    requires
        0 <= j < escape_pdf_text(s).len(),
        escape_pdf_text(s)[j] == '(' || escape_pdf_text(s)[j] == ')',
    ensures
        j > 0,
        escape_pdf_text(s)[j - 1] == '\\',
    decreases s.len(),
{
    if s.len() > 0 {
        let head = escape_pdf_text(s.drop_last());
        if j < head.len() {
            lemma_parentheses_follow_backslash(s.drop_last(), j);
        }
    }
}

/// `text` with a backslash in front of each backslash and each parenthesis.
pub fn escape_chars(text: &Vec<char>) -> (r: Vec<char>)
    ensures
        r@ == escape_pdf_text(text@),
{
    let mut r: Vec<char> = Vec::new();
    let mut i: usize = 0;
    while i < text.len()
        invariant
            i <= text.len(),
            r@ == escape_pdf_text(text@.take(i as int)),
        decreases text.len() - i,
    {
        proof {
            let next = text@.take(i + 1);
            assert(next.drop_last() =~= text@.take(i as int));
            assert(next.last() == text@[i as int]);
        }
        let ghost before = r@;
        let c = text[i];
        if c == '\\' || c == '(' || c == ')' {
            r.push('\\');
            r.push(c);
            assert(r@ =~= before + seq!['\\', c]);
        } else {
            r.push(c);
            assert(r@ =~= before + seq![c]);
        }
        i += 1;
    }
    assert(text@.take(text.len() as int) =~= text@);
    r
}

// ---------------------------------------------------------------------------
// Searching
// ---------------------------------------------------------------------------

/// Whether `pattern` stands in `s` at index `at`.
pub open spec fn occurs_at(s: Seq<char>, pattern: Seq<char>, at: int) -> bool {
    0 <= at && at + pattern.len() <= s.len() && s.subrange(at, at + pattern.len()) == pattern
}

/// Whether `pattern` stands somewhere in `s`.
pub open spec fn contains_text(s: Seq<char>, pattern: Seq<char>) -> bool {
    exists|at: int| occurs_at(s, pattern, at)
}

fn matches_at(s: &Vec<char>, pattern: &Vec<char>, at: usize) -> (r: bool)
    requires
        at + pattern.len() <= s.len(),
    ensures
        r == occurs_at(s@, pattern@, at as int),
{
    let mut k: usize = 0;
    while k < pattern.len()
        invariant
            k <= pattern.len(),
            at + pattern.len() <= s.len(),
            forall|j: int| 0 <= j < k ==> s@[at + j] == pattern@[j],
        decreases pattern.len() - k,
    {
        if s[at + k] != pattern[k] {
            proof {
                let part = s@.subrange(at as int, at + pattern.len());
                assert(part[k as int] == s@[at + k]);
            }
            return false;
        }
        k += 1;
    }
    assert(s@.subrange(at as int, at + pattern.len()) =~= pattern@);
    true
}

/// Whether `pattern` stands somewhere in `s`.
pub fn chars_contain(s: &Vec<char>, pattern: &Vec<char>) -> (r: bool)
    ensures
        r == contains_text(s@, pattern@),
{
    if pattern.len() > s.len() {
        return false;
    }
    let last: usize = s.len() - pattern.len();
    let mut at: usize = 0;
    loop
        invariant
            at <= last,
            last == s.len() - pattern.len(),
            pattern.len() <= s.len(),
            forall|j: int| 0 <= j < at ==> !occurs_at(s@, pattern@, j),
        decreases last - at,
    {
        if matches_at(s, pattern, at) {
            return true;
        }
        if at == last {
            return false;
        }
        at += 1;
    }
}

/// Whether `pattern`, given in lower case, stands somewhere in `s` when the
/// case of ASCII letters is left aside.
pub fn chars_contain_ignoring_case(s: &Vec<char>, pattern: &str) -> (r: bool)
    ensures
        r == contains_text(ascii_lowercase(s@), pattern@),
{
    let lower = chars_ascii_lowercase(s);
    let p = chars_of(pattern);
    chars_contain(&lower, &p)
}

} // verus!
