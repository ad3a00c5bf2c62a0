//! Markup as text: escaping for XML, and closing the void elements of HTML.

use vstd::prelude::*;
use vstd::string::StringExecFns;
use crate::text::{chars_of, string_of};

verus! {

/// What stands for `c` in the text content of an XML document.
pub open spec fn escaped_char(c: char) -> Seq<char> {
    if c == '<' {
        seq!['&', 'l', 't', ';']
    } else if c == '>' {
        seq!['&', 'g', 't', ';']
    } else if c == '&' {
        seq!['&', 'a', 'm', 'p', ';']
    } else if c == '"' {
        seq!['&', 'q', 'u', 'o', 't', ';']
    } else if c == '\'' {
        seq!['&', '#', 'x', '2', '7', ';']
    } else {
        seq![c]
    }
}

/// `s` with each of `< > & " '` replaced by its entity.
pub open spec fn xml_escaped(s: Seq<char>) -> Seq<char>
    decreases s.len(),
{
    if s.len() == 0 {
        s
    } else {
        xml_escaped(s.drop_last()) + escaped_char(s.last())
    }
}

/// Escapes `s` with askama's `Html` escaper, the one its templates use for XML: the
/// contract says that each of `< > & " '` becomes `&lt; &gt; &amp; &quot; &#x27;` and
/// every other character stays.
#[verifier::external_body]
pub(crate) fn xml_escape(s: &str) -> (out: String)
    ensures
        out@ == xml_escaped(s@),
{
    askama::MarkupDisplay::new_unsafe(s, askama::Html).to_string()
}

/// Whether `c` can open or close a tag or an attribute value.
pub open spec fn is_markup_char(c: char) -> bool {
    c == '<' || c == '>' || c == '"' || c == '\''
}

/// Escaped text holds no character that can open or close a tag or an attribute value.
pub proof fn lemma_escaped_is_plain(s: Seq<char>)
    ensures
        forall|i: int|
            0 <= i < xml_escaped(s).len() ==> !is_markup_char(#[trigger] xml_escaped(s)[i]),
    decreases s.len(),
{
    if s.len() > 0 {
        lemma_escaped_is_plain(s.drop_last());
        let head = xml_escaped(s.drop_last());
        let tail = escaped_char(s.last());
        assert forall|i: int| 0 <= i < tail.len() implies !is_markup_char(#[trigger] tail[i]) by {}
        assert forall|i: int| 0 <= i < xml_escaped(s).len() implies !is_markup_char(
            #[trigger] xml_escaped(s)[i],
        ) by {
            if i >= head.len() {
                assert(xml_escaped(s)[i] == tail[i - head.len()]);
            } else {
                assert(xml_escaped(s)[i] == head[i]);
            }
        }
    }
}

/// Text without any of `< > & " '` is its own escape.
pub proof fn lemma_escaped_of_plain(s: Seq<char>)
    requires
        forall|i: int| 0 <= i < s.len() ==> !is_markup_char(#[trigger] s[i]) && s[i] != '&',
    ensures
        xml_escaped(s) == s,
    decreases s.len(),
{
    if s.len() > 0 {
        lemma_escaped_of_plain(s.drop_last());
        assert(!is_markup_char(s[s.len() - 1]));
        assert(s.drop_last() + seq![s.last()] =~= s);
    }
}

/// Whether `c` is a letter of the Latin alphabet without accent.
pub open spec fn is_tag_letter(c: char) -> bool {
    ('a' <= c <= 'z') || ('A' <= c <= 'Z')
}

/// `c` as a small letter, where it is a capital letter of the Latin alphabet.
pub open spec fn lowered(c: char) -> char {
    if 'A' <= c <= 'Z' {
        (c as int + 32) as char
    } else {
        c
    }
}

/// Whether `c` ends the name of a tag: white space, `/` or `>`.
pub open spec fn ends_name(c: char) -> bool {
    c == ' ' || c == '\t' || c == '\n' || c == '\r' || c == '\u{c}' || c == '/' || c == '>'
}

/// Whether a start tag begins at the beginning of `s`: `<` and a letter.
pub open spec fn opens_tag(s: Seq<char>) -> bool {
    s.len() >= 2 && s[0] == '<' && is_tag_letter(s[1])
}

/// The index of the `>` that ends the tag which is being read at `from`: the first `>`
/// at or after `from` that stands in no attribute value in quotes. `quote` is the quote
/// that opened the value which is being read, if one is. `None` where the text ends first.
pub open spec fn tag_end(s: Seq<char>, from: int, quote: Option<char>) -> Option<int>
    decreases s.len() - from,
{
    if from < 0 || from >= s.len() {
        None
    } else {
        match quote {
            Some(q) => if s[from] == q {
                tag_end(s, from + 1, None)
            } else {
                tag_end(s, from + 1, quote)
            },
            None => if s[from] == '>' {
                Some(from)
            } else if s[from] == '"' || s[from] == '\'' {
                tag_end(s, from + 1, Some(s[from]))
            } else {
                tag_end(s, from + 1, None)
            },
        }
    }
}

/// The index at or after `from` at which the name of the tag ends.
pub open spec fn name_end(tag: Seq<char>, from: int) -> int
    decreases tag.len() - from,
{
    if from < 0 || from >= tag.len() || ends_name(tag[from]) {
        from
    } else {
        name_end(tag, from + 1)
    }
}

/// The name of the element of a start tag, in small letters.
pub open spec fn tag_name(tag: Seq<char>) -> Seq<char> {
    tag.subrange(1, name_end(tag, 1)).map_values(|c: char| lowered(c))
}

/// Whether `name` is the name of an element of HTML that has no content and no end tag.
pub open spec fn is_void_name(name: Seq<char>) -> bool {
    name == "area"@ || name == "base"@ || name == "br"@ || name == "col"@ || name == "embed"@
        || name == "hr"@ || name == "img"@ || name == "input"@ || name == "link"@ || name
        == "meta"@ || name == "source"@ || name == "track"@ || name == "wbr"@
}

/// Whether the start tag `tag`, from its `<` to its `>`, is that of a void element.
pub open spec fn is_void_tag(tag: Seq<char>) -> bool {
    is_void_name(tag_name(tag))
}

/// Whether the start tag `tag`, from its `<` to its `>`, ends in `/>`.
pub open spec fn closes_itself(tag: Seq<char>) -> bool {
    tag.len() >= 2 && tag[tag.len() - 2] == '/'
}

/// The start tag `tag` as XML wants it: the tag of a void element ends in `/>`; any other
/// tag, and a tag that ends so already, stays as it is.
pub open spec fn closed_tag(tag: Seq<char>) -> Seq<char> {
    if is_void_tag(tag) && !closes_itself(tag) {
        tag.drop_last() + seq![' ', '/', '>']
    } else {
        tag
    }
}

/// `s` with the start tag of every void element, with or without attributes, ended in
/// `/>`, and all other text as it is. The text is read from the left: a start tag begins at
/// `<` before a letter and ends at the next `>` outside attribute values in quotes; a start
/// tag that the text does not end is left as it is, with all that follows.
pub open spec fn void_closed(s: Seq<char>) -> Seq<char>
    decreases s.len(),
{
    if s.len() == 0 {
        s
    } else if !opens_tag(s) {
        seq![s[0]] + void_closed(s.skip(1))
    } else {
        match tag_end(s, 1, None) {
            Some(e) => if 1 <= e < s.len() {
                closed_tag(s.take(e + 1)) + void_closed(s.skip(e + 1))
            } else {
                s
            },
            None => s,
        }
    }
}

/// Whether every start tag of a void element that a reading of `s` from the left finds
/// ends in `/>`.
pub open spec fn voids_are_closed(s: Seq<char>) -> bool
    decreases s.len(),
{
    if s.len() == 0 {
        true
    } else if !opens_tag(s) {
        voids_are_closed(s.skip(1))
    } else {
        match tag_end(s, 1, None) {
            Some(e) => if 1 <= e < s.len() {
                &&& is_void_tag(s.take(e + 1)) ==> closes_itself(s.take(e + 1))
                &&& voids_are_closed(s.skip(e + 1))
            } else {
                true
            },
            None => true,
        }
    }
}

fn is_letter(c: char) -> (r: bool)
    ensures
        r == is_tag_letter(c),
{
    ('a' <= c && c <= 'z') || ('A' <= c && c <= 'Z')
}

fn lower(c: char) -> (r: char)
    ensures
        r == lowered(c),
{
    if 'A' <= c && c <= 'Z' {
        (((c as u32) + 32) as u8) as char
    } else {
        c
    }
}

fn is_name_end(c: char) -> (r: bool)
    ensures
        r == ends_name(c),
{
    c == ' ' || c == '\t' || c == '\n' || c == '\r' || c == '\u{c}' || c == '/' || c == '>'
}

fn same_text(a: &String, b: &str) -> (r: bool)
    ensures
        r == (a@ == b@),
{
    *a == String::from_str(b)
}

fn is_void(name: &String) -> (r: bool)
    ensures
        r == is_void_name(name@),
{
    same_text(name, "area") || same_text(name, "base") || same_text(name, "br") || same_text(
        name,
        "col",
    ) || same_text(name, "embed") || same_text(name, "hr") || same_text(name, "img")
        || same_text(name, "input") || same_text(name, "link") || same_text(name, "meta")
        || same_text(name, "source") || same_text(name, "track") || same_text(name, "wbr")
}

/// Where the start tag that begins at `at` ends.
fn find_tag_end(s: &Vec<char>, at: usize) -> (r: Option<usize>)
    requires
        at < s.len(),
    ensures
        match r {
            Some(e) => at < e < s.len() && tag_end(s@.skip(at as int), 1, None) == Some(e - at),
            None => tag_end(s@.skip(at as int), 1, None) is None,
        },
{
    let ghost t = s@.skip(at as int);
    let mut j: usize = at + 1;
    let mut quote: Option<char> = None;
    while j < s.len()
        invariant
            at < j <= s.len(),
            t == s@.skip(at as int),
            tag_end(t, 1, None) == tag_end(t, j - at, quote),
        decreases s.len() - j,
    {
        let c = s[j];
        proof {
            assert(t[j - at] == c);
        }
        match quote {
            Some(q) => {
                if c == q {
                    quote = None;
                }
            },
            None => {
                if c == '>' {
                    return Some(j);
                } else if c == '"' || c == '\'' {
                    quote = Some(c);
                }
            },
        }
        j += 1;
    }
    None
}

/// Whether the start tag that runs from `at` to its `>` at `e` is that of a void element.
fn is_void_at(s: &Vec<char>, at: usize, e: usize) -> (r: bool)
    requires
        at < e < s.len(),
        s@[e as int] == '>',
    ensures
        r == is_void_tag(s@.subrange(at as int, e + 1)),
{
    let ghost tag = s@.subrange(at as int, e + 1);
    let mut name: Vec<char> = Vec::new();
    let mut k: usize = at + 1;
    proof {
        assert(tag.subrange(1, 1).map_values(|c: char| lowered(c)) =~= name@);
    }
    while k < e && !is_name_end(s[k])
        invariant
            at < k <= e < s.len(),
            tag == s@.subrange(at as int, e + 1),
            name_end(tag, 1) == name_end(tag, k - at),
            name@ == tag.subrange(1, k - at).map_values(|c: char| lowered(c)),
        decreases e - k,
    {
        proof {
            assert(tag[k - at] == s@[k as int]);
        }
        name.push(lower(s[k]));
        proof {
            assert(name@ =~= tag.subrange(1, k - at + 1).map_values(|c: char| lowered(c)));
        }
        k += 1;
    }
    proof {
        assert(tag[k - at] == s@[k as int]);
        assert(ends_name(tag[k - at]));
    }
    let text = string_of(&name, 0, name.len());
    proof {
        assert(name@.subrange(0, name@.len() as int) =~= name@);
    }
    is_void(&text)
}

/// Appends the characters `s[from..to]` to `out`.
fn copy(out: &mut Vec<char>, s: &Vec<char>, from: usize, to: usize)
    requires
        from <= to <= s.len(),
    ensures
        final(out)@ == old(out)@ + s@.subrange(from as int, to as int),
{
    let mut i: usize = from;
    proof {
        assert(out@ + s@.subrange(from as int, from as int) =~= out@);
    }
    while i < to
        invariant
            from <= i <= to <= s.len(),
            out@ == old(out)@ + s@.subrange(from as int, i as int),
        decreases to - i,
    {
        out.push(s[i]);
        proof {
            assert(old(out)@ + s@.subrange(from as int, i + 1) =~= (old(out)@ + s@.subrange(
                from as int,
                i as int,
            )).push(s@[i as int]));
        }
        i += 1;
    }
}

/// Ends the start tag of every void element of `text` in `/>`, with or without
/// attributes, so that the markup can stand in an XML document. All other text stays.
pub fn close_void_elements(text: &str) -> (out: String)
    ensures
        out@ == void_closed(text@),
{
    let s = chars_of(text);
    let mut out: Vec<char> = Vec::new();
    let mut i: usize = 0;
    proof {
        assert(s@.skip(0) =~= s@);
        assert(out@ + void_closed(s@) =~= void_closed(s@));
    }
    while i < s.len()
        invariant
            i <= s.len(),
            void_closed(s@) == out@ + void_closed(s@.skip(i as int)),
        decreases s.len() - i,
    {
        let ghost t = s@.skip(i as int);
        let ghost before = out@;
        if s[i] == '<' && i + 1 < s.len() && is_letter(s[i + 1]) {
            proof {
                assert(t[0] == s@[i as int] && t[1] == s@[i + 1]);
                assert(opens_tag(t));
            }
            match find_tag_end(&s, i) {
                None => {
                    copy(&mut out, &s, i, s.len());
                    proof {
                        assert(s@.subrange(i as int, s@.len() as int) =~= t);
                        assert(void_closed(s@.skip(s@.len() as int)) =~= Seq::<char>::empty());
                        assert(before + t + Seq::<char>::empty() =~= before + t);
                    }
                    i = s.len();
                },
                Some(e) => {
                    let ghost tag = s@.subrange(i as int, e + 1);
                    proof {
                        assert(t.take(e - i + 1) =~= tag);
                        assert(t.skip(e - i + 1) =~= s@.skip(e + 1));
                        lemma_tag_end_bounds(t, 1, None);
                        assert(t[e - i] == s@[e as int]);
                        assert(tag[tag.len() - 2] == s@[e - 1]);
                    }
                    let void = is_void_at(&s, i, e);
                    if void && s[e - 1] != '/' {
                        copy(&mut out, &s, i, e);
                        out.push(' ');
                        out.push('/');
                        out.push('>');
                        proof {
                            assert(s@.subrange(i as int, e as int) =~= tag.drop_last());
                            assert(out@ =~= before + closed_tag(tag));
                        }
                    } else {
                        copy(&mut out, &s, i, e + 1);
                    }
                    proof {
                        let after = void_closed(s@.skip(e + 1));
                        assert(before + (closed_tag(tag) + after) =~= (before + closed_tag(tag))
                            + after);
                    }
                    i = e + 1;
                },
            }
        } else {
            out.push(s[i]);
            proof {
                assert(!opens_tag(t));
                assert(t.skip(1) =~= s@.skip(i + 1));
                let after = void_closed(s@.skip(i + 1));
                assert(before + (seq![t[0]] + after) =~= before.push(s@[i as int]) + after);
            }
            i += 1;
        }
    }
    proof {
        assert(void_closed(s@.skip(i as int)) =~= Seq::<char>::empty());
        assert(out@ + Seq::<char>::empty() =~= out@);
        assert(out@.subrange(0, out@.len() as int) =~= out@);
    }
    string_of(&out, 0, out.len())
}

proof fn lemma_tag_end_bounds(s: Seq<char>, from: int, quote: Option<char>)
    requires
        tag_end(s, from, quote) is Some,
    ensures
        from <= tag_end(s, from, quote)->0 < s.len(),
        0 <= from,
        s[tag_end(s, from, quote)->0] == '>',
    decreases s.len() - from,
{
    if 0 <= from < s.len() {
        match quote {
            Some(q) => {
                if s[from] == q {
                    lemma_tag_end_bounds(s, from + 1, None);
                } else {
                    lemma_tag_end_bounds(s, from + 1, quote);
                }
            },
            None => {
                if s[from] == '>' {
                } else if s[from] == '"' || s[from] == '\'' {
                    lemma_tag_end_bounds(s, from + 1, Some(s[from]));
                } else {
                    lemma_tag_end_bounds(s, from + 1, None);
                }
            },
        }
    }
}

/// A text that agrees with `t` up to the end of the tag has the tag end where `t` has it.
proof fn lemma_tag_end_agrees(
    t: Seq<char>,
    u: Seq<char>,
    from: int,
    quote: Option<char>,
    e: int,
)
    requires
        tag_end(t, from, quote) == Some(e),
        e < u.len(),
        forall|k: int| from <= k <= e ==> u[k] == t[k],
    ensures
        tag_end(u, from, quote) == Some(e),
    decreases e - from,
{
    lemma_tag_end_bounds(t, from, quote);
    assert(u[from] == t[from]);
    match quote {
        Some(q) => {
            if t[from] == q {
                lemma_tag_end_bounds(t, from + 1, None);
                lemma_tag_end_agrees(t, u, from + 1, None, e);
            } else {
                lemma_tag_end_bounds(t, from + 1, quote);
                lemma_tag_end_agrees(t, u, from + 1, quote, e);
            }
        },
        None => {
            if t[from] == '>' {
            } else if t[from] == '"' || t[from] == '\'' {
                lemma_tag_end_bounds(t, from + 1, Some(t[from]));
                lemma_tag_end_agrees(t, u, from + 1, Some(t[from]), e);
            } else {
                lemma_tag_end_bounds(t, from + 1, None);
                lemma_tag_end_agrees(t, u, from + 1, None, e);
            }
        },
    }
}

/// A text that agrees with `t` up to the `>` of the tag, and has ` />` in its place, has
/// the tag end two characters later.
proof fn lemma_tag_end_moves(t: Seq<char>, u: Seq<char>, from: int, quote: Option<char>, e: int)
    requires
        tag_end(t, from, quote) == Some(e),
        e + 3 <= u.len(),
        forall|k: int| from <= k < e ==> u[k] == t[k],
        u[e] == ' ',
        u[e + 1] == '/',
        u[e + 2] == '>',
    ensures
        tag_end(u, from, quote) == Some(e + 2),
    decreases e - from,
{
    lemma_tag_end_bounds(t, from, quote);
    if from == e {
        match quote {
            Some(q) => {
                // The tag would not end here inside a value.
                if t[from] == q {
                    lemma_tag_end_bounds(t, from + 1, None);
                } else {
                    lemma_tag_end_bounds(t, from + 1, quote);
                }
            },
            None => {
                assert(tag_end(u, e + 2, None) == Some(e + 2));
                assert(tag_end(u, e + 1, None) == Some(e + 2));
            },
        }
    } else {
        assert(u[from] == t[from]);
        match quote {
            Some(q) => {
                if t[from] == q {
                    lemma_tag_end_moves(t, u, from + 1, None, e);
                } else {
                    lemma_tag_end_moves(t, u, from + 1, quote, e);
                }
            },
            None => {
                if t[from] == '>' {
                } else if t[from] == '"' || t[from] == '\'' {
                    lemma_tag_end_moves(t, u, from + 1, Some(t[from]), e);
                } else {
                    lemma_tag_end_moves(t, u, from + 1, None, e);
                }
            },
        }
    }
}

/// Closing the void elements leaves the first character of a text as it is.
proof fn lemma_void_closed_first(s: Seq<char>)
    requires
        s.len() > 0,
    ensures
        void_closed(s).len() > 0,
        void_closed(s)[0] == s[0],
{
    if opens_tag(s) {
        match tag_end(s, 1, None) {
            Some(e) => {
                if 1 <= e < s.len() {
                    let tag = s.take(e + 1);
                    assert(tag[0] == s[0]);
                    assert(closed_tag(tag).len() > 0);
                    assert(closed_tag(tag)[0] == tag[0]);
                }
            },
            None => {},
        }
    }
}

/// What becomes of a text that begins with a whole start tag: the tag as XML wants it,
/// then what becomes of the rest.
proof fn lemma_void_closed_tag(s: Seq<char>) -> (e: int)
    requires
        opens_tag(s),
        tag_end(s, 1, None) is Some,
    ensures
        e == tag_end(s, 1, None)->0,
        2 <= e < s.len(),
        s[e] == '>',
        void_closed(s) == closed_tag(s.take(e + 1)) + void_closed(s.skip(e + 1)),
{
    lemma_tag_end_bounds(s, 1, None);
    tag_end(s, 1, None)->0
}

/// What `close_void_elements` gives is a text in which the start tag of every void element
/// ends in `/>`.
pub proof fn lemma_void_closed_closes(s: Seq<char>)
    ensures
        voids_are_closed(void_closed(s)),
    decreases s.len(),
{
    let r = void_closed(s);
    if s.len() == 0 {
    } else if !opens_tag(s) {
        let rest = s.skip(1);
        let v = void_closed(rest);
        lemma_void_closed_closes(rest);
        if rest.len() > 0 {
            lemma_void_closed_first(rest);
        }
        assert(r == seq![s[0]] + v);
        assert(r.skip(1) =~= v);
        assert(!opens_tag(r));
    } else {
        match tag_end(s, 1, None) {
            Some(_) => {
                let e = lemma_void_closed_tag(s);
                let tag = s.take(e + 1);
                let rest = s.skip(e + 1);
                let v = void_closed(rest);
                let c = closed_tag(tag);
                lemma_void_closed_closes(rest);
                assert(r == c + v);
                if is_void_tag(tag) && !closes_itself(tag) {
                    lemma_tag_end_moves(s, r, 1, None, e);
                    assert(r.take(e + 3) =~= c);
                    assert(r.skip(e + 3) =~= v);
                    assert(closes_itself(c));
                } else {
                    lemma_tag_end_agrees(s, r, 1, None, e);
                    assert(r.take(e + 1) =~= tag);
                    assert(r.skip(e + 1) =~= v);
                }
            },
            None => {
                lemma_unended_tag_is_closed(s);
            },
        }
    }
}

/// In a text that begins with a start tag which it does not end, no tag is found.
proof fn lemma_unended_tag_is_closed(s: Seq<char>)
    requires
        opens_tag(s),
        tag_end(s, 1, None) is None,
    ensures
        voids_are_closed(s),
        void_closed(s) == s,
{
}

/// A text in which the start tag of every void element ends in `/>` stays as it is.
pub proof fn lemma_void_closed_of_closed(s: Seq<char>)
    requires
        voids_are_closed(s),
    ensures
        void_closed(s) == s,
    decreases s.len(),
{
    if s.len() == 0 {
    } else if !opens_tag(s) {
        lemma_void_closed_of_closed(s.skip(1));
        assert(seq![s[0]] + s.skip(1) =~= s);
    } else {
        match tag_end(s, 1, None) {
            Some(_) => {
                let e = lemma_void_closed_tag(s);
                lemma_void_closed_of_closed(s.skip(e + 1));
                assert(s.take(e + 1) + s.skip(e + 1) =~= s);
            },
            None => {},
        }
    }
}

/// Closing the void elements of markup in which they are closed already changes nothing.
pub proof fn lemma_void_closed_idempotent(s: Seq<char>)
    ensures
        void_closed(void_closed(s)) == void_closed(s),
{
    lemma_void_closed_closes(s);
    lemma_void_closed_of_closed(void_closed(s));
}

/// Text without `<` stays as it is.
pub proof fn lemma_void_closed_of_text(s: Seq<char>)
    requires
        forall|i: int| 0 <= i < s.len() ==> s[i] != '<',
    ensures
        void_closed(s) == s,
    decreases s.len(),
{
    if s.len() > 0 {
        lemma_void_closed_of_text(s.skip(1));
        assert(seq![s[0]] + s.skip(1) =~= s);
    }
}

} // verus!
