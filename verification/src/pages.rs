//! The pages and how they are filled in: a page is a text in which words
//! in capitals stand for what a request puts in their place.

use vstd::prelude::*;
use vstd::string::{StrSliceExecFns, StringExecFns};
use crate::text::chars_of;

verus! {

/// The texts of the pages, before anything is filled in.
#[derive(Clone, Debug, PartialEq, Eq)]
pub struct Templates {
    /// Shown after a payment that succeeded.
    pub thanks: String,
    /// Shown after a payment that did not.
    pub error: String,
    /// The listing of the courses.
    pub store: String,
    /// The form of one course.
    pub form: String,
    /// The listing of the fundraisers.
    pub fundraise: String,
    /// The form of one fundraiser.
    pub donate: String,
    /// The page of an invoice.
    pub invoice: String,
}

/// `text` with `with` in the place of each occurrence of `word`. The
/// occurrences are taken from the left and do not overlap; what was put in
/// is not searched again. An empty word occurs nowhere.
pub open spec fn filled(text: Seq<char>, word: Seq<char>, with: Seq<char>) -> Seq<char>
    decreases text.len(),
{
    if word.len() == 0 || text.len() < word.len() {
        text
    } else if text.subrange(0, word.len() as int) == word {
        with + filled(text.skip(word.len() as int), word, with)
    } else {
        seq![text[0]] + filled(text.skip(1), word, with)
    }
}

/// Whether `word` stands in `text` at place `at`.
fn occurs_at(text: &Vec<char>, at: usize, word: &Vec<char>) -> (b: bool)
    requires
        at + word.len() <= text.len(),
    ensures
        b == (text@.subrange(at as int, at + word.len()) == word@),
{
    let mut j: usize = 0;
    while j < word.len()
        invariant
            at + word.len() <= text.len(),
            j <= word.len(),
            forall|k: int| 0 <= k < j ==> text@[at + k] == word@[k],
        decreases word.len() - j,
    {
        if text[at + j] != word[j] {
            return false;
        }
        j += 1;
    }
    assert(text@.subrange(at as int, at + word.len()) =~= word@);
    true
}

/// Puts `with` in the place of each occurrence of `word` in `text`.
pub fn fill(text: &str, word: &str, with: &str) -> (out: String)
    ensures
        out@ == filled(text@, word@, with@),
{
    let chars = chars_of(text);
    let sought = chars_of(word);
    let n = chars.len();
    let m = sought.len();
    let mut out = String::new();
    if m == 0 || n < m {
        out.append(text);
        return out;
    }
    let mut start: usize = 0;
    let mut i: usize = 0;
    assert(text@.skip(0) =~= text@);
    while i <= n - m
        invariant
            chars@ == text@,
            sought@ == word@,
            n == chars.len(),
            m == sought.len(),
            0 < m <= n,
            start <= i <= n,
            filled(text@, word@, with@) == out@ + text@.subrange(start as int, i as int) + filled(
                text@.skip(i as int),
                word@,
                with@,
            ),
        decreases n - i,
    {
        let ghost rest = text@.skip(i as int);
        assert(rest.subrange(0, m as int) =~= text@.subrange(i as int, i + m));
        if occurs_at(&chars, i, &sought) {
            out.append(text.substring_char(start, i));
            out.append(with);
            assert(rest.skip(m as int) =~= text@.skip(i + m));
            i = i + m;
            start = i;
        } else {
            assert(rest.skip(1) =~= text@.skip(i + 1));
            i = i + 1;
        }
    }
    out.append(text.substring_char(start, n));
    out
}

} // verus!
