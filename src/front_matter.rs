//! The content file format: a fenced header block followed by the body.
//!
//! A file starts, after optional white space, with a fence of seven
//! backticks and the word `json`; the header runs up to the next fence of
//! seven backticks, and the body is everything after that fence.
use vstd::prelude::*;
use vstd::string::*;
use crate::text::{chars_of, matches_at, occurs_at, string_from_range};

verus! {

/// The fence that opens and closes the header block.
pub open spec fn fence() -> Seq<char> {
    seq!['`', '`', '`', '`', '`', '`', '`']
}

/// The opening line marker: the fence followed by ` json`.
pub open spec fn opening() -> Seq<char> {
    fence() + seq![' ', 'j', 's', 'o', 'n']
}

pub open spec fn crlf() -> Seq<char> {
    seq!['\r', '\n']
}

/// Unicode white space.
pub open spec fn is_space(c: char) -> bool {
    ('\t' <= c && c <= '\r') || c == ' ' || c == '\u{85}' || c == '\u{a0}' || c == '\u{1680}' || (
    '\u{2000}' <= c && c <= '\u{200a}') || c == '\u{2028}' || c == '\u{2029}' || c == '\u{202f}'
        || c == '\u{205f}' || c == '\u{3000}'
}

pub fn is_space_char(c: char) -> (r: bool)
    ensures
        r == is_space(c),
{
    ('\t' <= c && c <= '\r') || c == ' ' || c == '\u{85}' || c == '\u{a0}' || c == '\u{1680}' || (
    '\u{2000}' <= c && c <= '\u{200a}') || c == '\u{2028}' || c == '\u{2029}' || c == '\u{202f}'
        || c == '\u{205f}' || c == '\u{3000}'
}

/// The number of white-space characters at the start of `t` from `j` on.
pub open spec fn spaces_from(t: Seq<char>, j: int) -> int
    decreases t.len() - j,
{
    if j < 0 || j >= t.len() || !is_space(t[j]) {
        j
    } else {
        spaces_from(t, j + 1)
    }
}

/// The first position at or after `j` where a fence occurs.
pub open spec fn fence_from(t: Seq<char>, j: int) -> Option<int>
    decreases t.len() - j,
{
    if j < 0 || j + 7 > t.len() {
        None
    } else if occurs_at(t, j, fence()) {
        Some(j)
    } else {
        fence_from(t, j + 1)
    }
}

/// The header and the body of a content file, if it has the format.
pub open spec fn front_matter_parts(t: Seq<char>) -> Option<(Seq<char>, Seq<char>)> {
    let s = spaces_from(t, 0);
    if !occurs_at(t, s, opening()) {
        None
    } else {
        match fence_from(t, s + 12) {
            Some(m) => Some((t.subrange(s + 12, m), t.subrange(m + 7, t.len() as int))),
            None => None,
        }
    }
}

/// A content file made of a header and a body.
pub open spec fn front_matter_text(header: Seq<char>, body: Seq<char>) -> Seq<char> {
    opening() + crlf() + header + crlf() + fence() + crlf() + body
}

fn fence_chars() -> (r: Vec<char>)
    ensures
        r@ == fence(),
{
    let r = vec!['`', '`', '`', '`', '`', '`', '`'];
    assert(r@ =~= fence());
    r
}

fn opening_chars() -> (r: Vec<char>)
    ensures
        r@ == opening(),
{
    let r = vec!['`', '`', '`', '`', '`', '`', '`', ' ', 'j', 's', 'o', 'n'];
    assert(r@ =~= opening());
    r
}

/// Splits a content file into its header and its body; `None` when the
/// file does not open with the fenced header or the header is not closed.
pub fn split_front_matter(text: &str) -> (r: Option<(String, String)>)
    ensures
        match r {
            Some((h, b)) => front_matter_parts(text@) == Some((h@, b@)),
            None => front_matter_parts(text@) is None,
        },
{
    let cs = chars_of(text);
    let mut s: usize = 0;
    while s < cs.len() && is_space_char(cs[s])
        invariant
            s <= cs@.len(),
            spaces_from(cs@, 0) == spaces_from(cs@, s as int),
        decreases cs@.len() - s,
    {
        s = s + 1;
    }
    assert(spaces_from(cs@, s as int) == s);
    let open = opening_chars();
    if !matches_at(&cs, s, &open) {
        return None;
    }
    let close = fence_chars();
    let start = s + 12;
    let mut m: usize = start;
    while m < cs.len() && cs.len() - m >= 7
        invariant
            start <= m,
            start <= cs@.len(),
            start == s + 12,
            cs@ == text@,
            spaces_from(cs@, 0) == s,
            occurs_at(cs@, s as int, opening()),
            close@ == fence(),
            fence_from(cs@, start as int) == fence_from(cs@, m as int),
        decreases cs@.len() - m,
    {
        if matches_at(&cs, m, &close) {
            assert(fence_from(cs@, m as int) == Some(m as int));
            let header = string_from_range(&cs, start, m);
            let body = string_from_range(&cs, m + 7, cs.len());
            return Some((header, body));
        }
        m = m + 1;
    }
    None
}

/// Writes a content file from a header and a body.
pub fn render_front_matter(header: &str, body: &str) -> (r: String)
    ensures
        r@ == front_matter_text(header@, body@),
{
    let mut s = "``````` json\r\n".to_owned();
    s.append(header);
    s.append("\r\n```````\r\n");
    s.append(body);
    proof {
        reveal_strlit("``````` json\r\n");
        reveal_strlit("\r\n```````\r\n");
        assert(s@ =~= front_matter_text(header@, body@));
    }
    s
}

proof fn lemma_no_fence_before(t: Seq<char>, h: Seq<char>, b: Seq<char>, j: int)
    requires
        t == front_matter_text(h, b),
        12 <= j <= h.len() + 16,
        forall|p: int| 0 <= p ==> !occurs_at(h, p, fence()),
    ensures
        fence_from(t, j) == Some(h.len() + 16int),
    decreases h.len() + 16 - j,
{
    let m = h.len() + 16int;
    assert(t.len() == h.len() + 25 + b.len());
    if j == m {
        assert(t.subrange(m, m + 7) =~= fence());
    } else {
        assert(!occurs_at(t, j, fence())) by {
            if j < 14 {
                assert(t[j] == crlf()[j - 12]);
                assert(t.subrange(j, j + 7)[0] == t[j]);
            } else if j < 14 + h.len() {
                if j + 7 <= 14 + h.len() {
                    assert(t.subrange(j, j + 7) =~= h.subrange(j - 14, j - 7));
                    assert(!occurs_at(h, j - 14, fence()));
                } else {
                    let q = 14 + h.len() as int;
                    assert(t[q] == '\r');
                    assert(t.subrange(j, j + 7)[q - j] == t[q]);
                }
            } else {
                assert(t[j] == crlf()[j - 14 - h.len()]);
                assert(t.subrange(j, j + 7)[0] == t[j]);
            }
        }
        lemma_no_fence_before(t, h, b, j + 1);
    }
}

/// Writing a file and splitting it again gives back the header and body,
/// each with the line break that the writer put next to it, whenever the
/// header holds no fence.
pub proof fn lemma_front_matter_round_trip(h: Seq<char>, b: Seq<char>)
    requires
        forall|p: int| 0 <= p ==> !occurs_at(h, p, fence()),
    ensures
        front_matter_parts(front_matter_text(h, b)) == Some((crlf() + h + crlf(), crlf() + b)),
{
    let t = front_matter_text(h, b);
    assert(!is_space(t[0]));
    assert(spaces_from(t, 0) == 0);
    assert(t.subrange(0, 12) =~= opening());
    lemma_no_fence_before(t, h, b, 12);
    assert(t.subrange(12, h.len() + 16int) =~= crlf() + h + crlf());
    assert(t.subrange(h.len() + 23int, t.len() as int) =~= crlf() + b);
}

} // verus!
