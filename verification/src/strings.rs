//! Building text: decimal numbers and joined lists.

use vstd::prelude::*;
use vstd::string::*;

verus! {

/// The character of a decimal digit.
pub open spec fn digit_char(d: int) -> char {
    if d == 0 { '0' }
    else if d == 1 { '1' }
    else if d == 2 { '2' }
    else if d == 3 { '3' }
    else if d == 4 { '4' }
    else if d == 5 { '5' }
    else if d == 6 { '6' }
    else if d == 7 { '7' }
    else if d == 8 { '8' }
    else { '9' }
}

/// The decimal writing of `n`, without leading zeros.
pub open spec fn decimal(n: nat) -> Seq<char>
    decreases n,
{
    if n < 10 {
        seq![digit_char(n as int)]
    } else {
        decimal(n / 10).push(digit_char((n % 10) as int))
    }
}

fn digit_str(d: u64) -> (r: &'static str)
    requires
        d < 10,
    ensures
        r@ == seq![digit_char(d as int)],
{
    proof {
        reveal_strlit("0");
        reveal_strlit("1");
        reveal_strlit("2");
        reveal_strlit("3");
        reveal_strlit("4");
        reveal_strlit("5");
        reveal_strlit("6");
        reveal_strlit("7");
        reveal_strlit("8");
        reveal_strlit("9");
    }
    if d == 0 { "0" }
    else if d == 1 { "1" }
    else if d == 2 { "2" }
    else if d == 3 { "3" }
    else if d == 4 { "4" }
    else if d == 5 { "5" }
    else if d == 6 { "6" }
    else if d == 7 { "7" }
    else if d == 8 { "8" }
    else { "9" }
}

/// Writes `n` in decimal.
pub fn decimal_string(n: u64) -> (r: String)
    ensures
        r@ == decimal(n as nat),
    decreases n,
{
    if n < 10 {
        digit_str(n).to_owned()
    } else {
        let s = decimal_string(n / 10);
        let r = s.concat(digit_str(n % 10));
        assert(r@ =~= decimal(n as nat));
        r
    }
}

/// The items joined, with `sep` between each two of them.
pub open spec fn joined(items: Seq<Seq<char>>, sep: Seq<char>) -> Seq<char>
    decreases items.len(),
{
    if items.len() == 0 {
        Seq::empty()
    } else if items.len() == 1 {
        items[0]
    } else {
        joined(items.drop_last(), sep) + sep + items.last()
    }
}

/// The text of each string.
pub open spec fn views(items: Seq<String>) -> Seq<Seq<char>> {
    items.map_values(|s: String| s@)
}

/// Joins the items with `sep` between each two of them.
pub fn join(items: &Vec<String>, sep: &str) -> (r: String)
    ensures
        r@ == joined(views(items@), sep@),
{
    let mut r = String::new();
    let mut k: usize = 0;
    while k < items.len()
        invariant
            k <= items.len(),
            r@ == joined(views(items@).take(k as int), sep@),
        decreases items.len() - k,
    {
        let ghost before = r@;
        if k == 0 {
            r.append(items[k].as_str());
        } else {
            r.append(sep);
            r.append(items[k].as_str());
        }
        assert(views(items@).take(k + 1).drop_last() =~= views(items@).take(k as int));
        k = k + 1;
    }
    assert(views(items@).take(items.len() as int) =~= views(items@));
    r
}

/// Whether `char::is_whitespace` holds: the character has the Unicode
/// `White_Space` property, which these 25 code points have.
pub open spec fn unicode_whitespace(c: char) -> bool {
    let v = c as u32;
    (0x09 <= v <= 0x0d) || v == 0x20 || v == 0x85 || v == 0xa0 || v == 0x1680 || (0x2000 <= v <= 0x200a)
        || v == 0x2028 || v == 0x2029 || v == 0x202f || v == 0x205f || v == 0x3000
}

/// Whether a character is whitespace, as `char::is_whitespace` decides.
pub fn is_whitespace(c: char) -> (r: bool)
    ensures
        r == unicode_whitespace(c),
{
    let v = c as u32;
    (0x09 <= v && v <= 0x0d) || v == 0x20 || v == 0x85 || v == 0xa0 || v == 0x1680 || (0x2000 <= v && v
        <= 0x200a) || v == 0x2028 || v == 0x2029 || v == 0x202f || v == 0x205f || v == 0x3000
}

/// The first character from `i` on that is not whitespace (or the end).
pub open spec fn trim_start(s: Seq<char>, i: int) -> int
    decreases s.len() - i,
{
    if i < 0 || i >= s.len() || !unicode_whitespace(s[i]) {
        i
    } else {
        trim_start(s, i + 1)
    }
}

/// Just after the last character before `j` that is not whitespace (or
/// the start).
pub open spec fn trim_end(s: Seq<char>, j: int) -> int
    decreases j,
{
    if j <= 0 || j > s.len() || !unicode_whitespace(s[j - 1]) {
        j
    } else {
        trim_end(s, j - 1)
    }
}

/// The text `str::trim` gives: `s` without leading and trailing
/// whitespace.
pub open spec fn trimmed(s: Seq<char>) -> Seq<char> {
    let start = trim_start(s, 0);
    if start >= s.len() {
        Seq::empty()
    } else {
        s.subrange(start, trim_end(s, s.len() as int))
    }
}

/// Removes leading and trailing whitespace, as `str::trim` does.
pub fn trim(s: &str) -> (r: &str)
    ensures
        r@ == trimmed(s@),
{
    let n = s.unicode_len();
    let mut i: usize = 0;
    while i < n && is_whitespace(s.get_char(i))
        invariant
            n == s@.len(),
            i <= n,
            trim_start(s@, i as int) == trim_start(s@, 0),
        decreases n - i,
    {
        i = i + 1;
    }
    if i == n {
        proof {
            reveal_strlit("");
        }
        return "";
    }
    let mut j: usize = n;
    while j > i + 1 && is_whitespace(s.get_char(j - 1))
        invariant
            n == s@.len(),
            i < j <= n,
            !unicode_whitespace(s@[i as int]),
            trim_end(s@, j as int) == trim_end(s@, n as int),
        decreases j,
    {
        j = j - 1;
    }
    s.substring_char(i, j)
}

/// The text `str::to_lowercase` gives: `s` in Unicode lower case.
pub uninterp spec fn lowercased(s: Seq<char>) -> Seq<char>;

/// `str::to_lowercase`.
///
/// Trusted: the result is the named `lowercased`.
#[verifier::external_body]
pub(crate) fn to_lowercase(s: &str) -> (r: String)
    ensures
        r@ == lowercased(s@),
{
    s.to_lowercase()
}

} // verus!
