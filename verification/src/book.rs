//! What is known of a book before its chapters are fetched.

use vstd::prelude::*;
use crate::text::{chars_of, optional_text, texts};
use crate::timestamp::Timestamp;

verus! {

/// A book as its index page describes it: identifier, title, author, the addresses of
/// the chapters in reading order, the address of the cover image if there is one, and the
/// time of the latest activity.
#[derive(Debug)]
pub struct BookInfo {
    pub id: String,
    pub title: String,
    pub author_name: String,
    pub chapters: Vec<String>,
    pub cover: Option<String>,
    pub modified: Timestamp,
}

/// What a `BookInfo` holds, as plain values.
pub ghost struct BookInfoView {
    pub id: Seq<char>,
    pub title: Seq<char>,
    pub author_name: Seq<char>,
    pub chapters: Seq<Seq<char>>,
    pub cover: Option<Seq<char>>,
    pub modified: Timestamp,
}

impl View for BookInfo {
    type V = BookInfoView;

    open spec fn view(&self) -> BookInfoView {
        BookInfoView {
            id: self.id@,
            title: self.title@,
            author_name: self.author_name@,
            chapters: texts(self.chapters@),
            cover: optional_text(self.cover),
            modified: self.modified,
        }
    }
}

/// Whether `c` is a letter of the Latin alphabet without accent.
pub open spec fn is_letter(c: char) -> bool {
    ('a' <= c <= 'z') || ('A' <= c <= 'Z')
}

/// Whether `c` may stand in an identifier: a letter, a digit, `-`, `_` or `.`.
pub open spec fn is_id_char(c: char) -> bool {
    is_letter(c) || ('0' <= c <= '9') || c == '-' || c == '_' || c == '.'
}

/// Whether `s` holds nothing but characters that may stand in an identifier.
pub open spec fn is_id_text(s: Seq<char>) -> bool {
    forall|i: int| 0 <= i < s.len() ==> is_id_char(#[trigger] s[i])
}

/// Whether `s` can name a file and identify an element of an XML document: it begins
/// with a letter or `_` and goes on with letters, digits, `-`, `_` and `.`.
pub open spec fn is_safe_id(s: Seq<char>) -> bool {
    &&& s.len() > 0
    &&& is_letter(s[0]) || s[0] == '_'
    &&& is_id_text(s)
}

/// Whether `s` holds nothing but characters that may stand in an identifier.
pub fn id_text(s: &str) -> (r: bool)
    ensures
        r == is_id_text(s@),
{
    let v = chars_of(s);
    let mut i: usize = 0;
    while i < v.len()
        invariant
            i <= v@.len(),
            v@ == s@,
            is_id_text(v@.take(i as int)),
        decreases v.len() - i,
    {
        let c = v[i];
        let fits = ('a' <= c && c <= 'z') || ('A' <= c && c <= 'Z') || ('0' <= c && c <= '9') || c
            == '-' || c == '_' || c == '.';
        if !fits {
            return false;
        }
        proof {
            assert forall|j: int| 0 <= j < i + 1 implies is_id_char(
                #[trigger] v@.take(i + 1)[j],
            ) by {
                if j < i {
                    assert(v@.take(i as int)[j] == v@.take(i + 1)[j]);
                }
            }
        }
        i += 1;
    }
    proof {
        assert(v@.take(i as int) =~= v@);
    }
    true
}

impl BookInfoView {
    /// Whether the identifier is safe, title and author are not empty, and the time is
    /// a date and a time.
    pub open spec fn wf(&self) -> bool {
        &&& is_safe_id(self.id)
        &&& self.title.len() > 0
        &&& self.author_name.len() > 0
        &&& self.modified.wf()
    }
}

} // verus!
