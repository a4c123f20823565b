//! Byte-level text helpers shared by the matching and parsing code.

use vstd::prelude::*;
use vstd::utf8::*;

verus! {

/// `pat` occurs in `text` starting at byte `i`.
pub open spec fn occurs_at(text: Seq<u8>, pat: Seq<u8>, i: int) -> bool {
    0 <= i && i + pat.len() <= text.len() && text.subrange(i, i + pat.len()) == pat
}

/// Checks whether `pat` occurs in `text` starting at byte `i`.
pub fn bytes_occur_at(text: &[u8], pat: &[u8], i: usize) -> (b: bool)
    ensures
        b == occurs_at(text@, pat@, i as int),
{
    if i > text.len() || pat.len() > text.len() - i {
        return false;
    }
    let mut j: usize = 0;
    while j < pat.len()
        invariant
            i + pat.len() <= text.len(),
            j <= pat.len(),
            forall|k: int| 0 <= k < j ==> text@[i + k] == pat@[k],
        decreases pat.len() - j,
    {
        if text[i + j] != pat[j] {
            assert(text@.subrange(i as int, i + pat.len())[j as int] != pat@[j as int]);
            return false;
        }
        j = j + 1;
    }
    assert(text@.subrange(i as int, i + pat.len()) =~= pat@);
    true
}

/// The pieces of a text of `len` bytes that lie between the given
/// (ordered) match ranges: before the first match, between consecutive
/// matches, and after the last one.
pub open spec fn split_spans(ranges: Seq<(int, int)>, len: int) -> Seq<(int, int)> {
    Seq::new(
        ranges.len() + 1,
        |k: int|
            (
                if k == 0 { 0int } else { ranges[k - 1].1 },
                if k < ranges.len() { ranges[k].0 } else { len },
            ),
    )
}

/// The byte range `s..e` touches none of the given spans. Spans that merely
/// share an end point with it count as touching.
pub open spec fn clear_of(spans: Seq<(int, int)>, s: int, e: int) -> bool {
    forall|k: int| 0 <= k < spans.len() ==> !(s <= #[trigger] spans[k].1 && e >= spans[k].0)
}

/// The spans of a vector of byte ranges, as integers.
pub open spec fn int_spans(v: Seq<(usize, usize)>) -> Seq<(int, int)> {
    v.map_values(|p: (usize, usize)| (p.0 as int, p.1 as int))
}

/// Checks that the byte range `s..e` touches none of the given ranges.
pub fn ranges_clear_of(spans: &Vec<(usize, usize)>, s: usize, e: usize) -> (b: bool)
    ensures
        b == clear_of(int_spans(spans@), s as int, e as int),
{
    let mut k: usize = 0;
    while k < spans.len()
        invariant
            k <= spans.len(),
            forall|l: int|
                0 <= l < k ==> !(s <= #[trigger] int_spans(spans@)[l].1 && e >= int_spans(
                    spans@,
                )[l].0),
        decreases spans.len() - k,
    {
        let (ms, me) = spans[k];
        if s <= me && e >= ms {
            assert(int_spans(spans@)[k as int] == (ms as int, me as int));
            return false;
        }
        k = k + 1;
    }
    true
}

/// The text that `str::get` gives for the byte range `start..end`: `Some`
/// exactly when `start <= end` and both ends are character boundaries.
pub open spec fn get_range(s: Seq<char>, start: int, end: int) -> Option<Seq<char>> {
    let b = encode_utf8(s);
    if start <= end && is_char_boundary(b, start) && is_char_boundary(b, end) {
        Some(decode_utf8(b.subrange(start, end)))
    } else {
        None
    }
}

/// `str::get(start..end)`.
///
/// Trusted: as std documents, `get` gives `None` exactly where indexing
/// would panic (an inverted range, an end past the text, or an end that is
/// not a character boundary), and otherwise the bytes in the range.
#[verifier::external_body]
fn str_get(s: &str, start: usize, end: usize) -> (r: Option<&str>)
    ensures
        r is Some <==> (start <= end && is_char_boundary(encode_utf8(s@), start as int)
            && is_char_boundary(encode_utf8(s@), end as int)),
        r matches Some(t) ==> encode_utf8(t@) == encode_utf8(s@).subrange(start as int, end as int),
{
    s.get(start..end)
}

/// The text in the byte range `start..end`, when it falls on character boundaries.
pub fn substring(s: &str, start: usize, end: usize) -> (r: Option<&str>)
    ensures
        r matches Some(t) ==> get_range(s@, start as int, end as int) == Some(t@),
        r is None ==> get_range(s@, start as int, end as int) is None,
{
    let r = str_get(s, start, end);
    proof {
        if let Some(t) = r {
            encode_utf8_decode_utf8(t@);
        }
    }
    r
}

} // verus!
