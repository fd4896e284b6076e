//! Byte-level views of source text: whitespace, trimming, searching.
use vstd::prelude::*;

verus! {

/// The UTF-8 encoding `c` (of one to three bytes) is that of a character for
/// which `char::is_whitespace` holds.
pub open spec fn is_ws_encoding(c: Seq<u8>) -> bool {
    ||| c.len() == 1 && ((0x09 <= c[0] && c[0] <= 0x0d) || c[0] == 0x20)
    ||| c.len() == 2 && c[0] == 0xc2 && (c[1] == 0x85 || c[1] == 0xa0)
    ||| c.len() == 3 && c[0] == 0xe1 && c[1] == 0x9a && c[2] == 0x80
    ||| c.len() == 3 && c[0] == 0xe2 && c[1] == 0x80 && ((0x80 <= c[2] && c[2] <= 0x8a)
        || c[2] == 0xa8 || c[2] == 0xa9 || c[2] == 0xaf)
    ||| c.len() == 3 && c[0] == 0xe2 && c[1] == 0x81 && c[2] == 0x9f
    ||| c.len() == 3 && c[0] == 0xe3 && c[1] == 0x80 && c[2] == 0x80
}

/// Length of the whitespace character that `b` starts with, or 0.
pub open spec fn ws_prefix_len(b: Seq<u8>) -> nat {
    if b.len() >= 1 && is_ws_encoding(b.subrange(0, 1)) {
        1
    } else if b.len() >= 2 && is_ws_encoding(b.subrange(0, 2)) {
        2
    } else if b.len() >= 3 && is_ws_encoding(b.subrange(0, 3)) {
        3
    } else {
        0
    }
}

/// Length of the whitespace character that `b` ends with, or 0.
pub open spec fn ws_suffix_len(b: Seq<u8>) -> nat {
    let n = b.len() as int;
    if n >= 1 && is_ws_encoding(b.subrange(n - 1, n)) {
        1
    } else if n >= 2 && is_ws_encoding(b.subrange(n - 2, n)) {
        2
    } else if n >= 3 && is_ws_encoding(b.subrange(n - 3, n)) {
        3
    } else {
        0
    }
}

/// `b` without its leading whitespace.
pub open spec fn trim_start(b: Seq<u8>) -> Seq<u8>
    decreases b.len(),
{
    let k = ws_prefix_len(b);
    if k == 0 {
        b
    } else {
        trim_start(b.subrange(k as int, b.len() as int))
    }
}

/// `b` without its trailing whitespace.
pub open spec fn trim_end(b: Seq<u8>) -> Seq<u8>
    decreases b.len(),
{
    let k = ws_suffix_len(b);
    if k == 0 {
        b
    } else {
        trim_end(b.subrange(0, b.len() - k))
    }
}

/// `b` without leading and trailing whitespace.
pub open spec fn trim(b: Seq<u8>) -> Seq<u8> {
    trim_end(trim_start(b))
}

/// `needle` occurs in `hay` at byte `i`.
pub open spec fn occurs_at(hay: Seq<u8>, needle: Seq<u8>, i: int) -> bool {
    0 <= i && i + needle.len() <= hay.len() && hay.subrange(i, i + needle.len()) == needle
}

/// `needle` occurs somewhere in `hay`.
pub open spec fn contains(hay: Seq<u8>, needle: Seq<u8>) -> bool {
    exists|i: int| occurs_at(hay, needle, i)
}

/// `b` begins with `p`.
pub open spec fn starts_with(b: Seq<u8>, p: Seq<u8>) -> bool {
    occurs_at(b, p, 0)
}

fn is_ws_at_start(b: &[u8], lo: usize, hi: usize, k: usize) -> (r: bool)
    requires
        lo <= hi <= b@.len(),
        1 <= k <= 3,
    ensures
        r == (hi - lo >= k && is_ws_encoding(b@.subrange(lo as int, lo + k))),
{
    if hi - lo < k {
        return false;
    }
    let c0 = b[lo];
    if k == 1 {
        (0x09 <= c0 && c0 <= 0x0d) || c0 == 0x20
    } else if k == 2 {
        let c1 = b[lo + 1];
        c0 == 0xc2 && (c1 == 0x85 || c1 == 0xa0)
    } else {
        let c1 = b[lo + 1];
        let c2 = b[lo + 2];
        (c0 == 0xe1 && c1 == 0x9a && c2 == 0x80) || (c0 == 0xe2 && c1 == 0x80 && ((0x80 <= c2
            && c2 <= 0x8a) || c2 == 0xa8 || c2 == 0xa9 || c2 == 0xaf)) || (c0 == 0xe2 && c1
            == 0x81 && c2 == 0x9f) || (c0 == 0xe3 && c1 == 0x80 && c2 == 0x80)
    }
}

/// Length of the whitespace character that `b[lo..hi]` starts with, or 0.
fn leading_ws_len(b: &[u8], lo: usize, hi: usize) -> (r: usize)
    requires
        lo <= hi <= b@.len(),
    ensures
        r == ws_prefix_len(b@.subrange(lo as int, hi as int)),
{
    let ghost s = b@.subrange(lo as int, hi as int);
    assert(s.len() >= 1 ==> s.subrange(0, 1) =~= b@.subrange(lo as int, lo + 1));
    assert(s.len() >= 2 ==> s.subrange(0, 2) =~= b@.subrange(lo as int, lo + 2));
    assert(s.len() >= 3 ==> s.subrange(0, 3) =~= b@.subrange(lo as int, lo + 3));
    if is_ws_at_start(b, lo, hi, 1) {
        1
    } else if is_ws_at_start(b, lo, hi, 2) {
        2
    } else if is_ws_at_start(b, lo, hi, 3) {
        3
    } else {
        0
    }
}

/// Length of the whitespace character that `b[lo..hi]` ends with, or 0.
pub(crate) fn trailing_ws_len(b: &[u8], lo: usize, hi: usize) -> (r: usize)
    requires
        lo <= hi <= b@.len(),
    ensures
        r == ws_suffix_len(b@.subrange(lo as int, hi as int)),
        r <= hi - lo,
{
    let ghost s = b@.subrange(lo as int, hi as int);
    let n = hi - lo;
    assert(n >= 1 ==> s.subrange(n - 1, n as int) =~= b@.subrange(hi - 1, hi as int));
    assert(n >= 2 ==> s.subrange(n - 2, n as int) =~= b@.subrange(hi - 2, hi as int));
    assert(n >= 3 ==> s.subrange(n - 3, n as int) =~= b@.subrange(hi - 3, hi as int));
    if n >= 1 && is_ws_at_start(b, hi - 1, hi, 1) {
        1
    } else if n >= 2 && is_ws_at_start(b, hi - 2, hi, 2) {
        2
    } else if n >= 3 && is_ws_at_start(b, hi - 3, hi, 3) {
        3
    } else {
        0
    }
}

/// The range of `b[lo..hi]` that is left once leading and trailing
/// whitespace is removed.
pub fn trim_range(b: &[u8], lo: usize, hi: usize) -> (r: (usize, usize))
    requires
        lo <= hi <= b@.len(),
    ensures
        lo <= r.0 <= r.1 <= hi,
        b@.subrange(r.0 as int, r.1 as int) == trim(b@.subrange(lo as int, hi as int)),
{
    let mut a = lo;
    loop
        invariant
            lo <= a <= hi <= b@.len(),
            trim_start(b@.subrange(a as int, hi as int)) == trim_start(
                b@.subrange(lo as int, hi as int),
            ),
        ensures
            lo <= a <= hi,
            trim_start(b@.subrange(lo as int, hi as int)) == b@.subrange(a as int, hi as int),
        decreases hi - a,
    {
        if a == hi {
            break;
        }
        let k = leading_ws_len(b, a, hi);
        if k == 0 {
            break;
        }
        assert(b@.subrange(a as int, hi as int).subrange(k as int, (hi - a) as int)
            =~= b@.subrange(a + k, hi as int));
        a = a + k;
    }
    let mut z = hi;
    loop
        invariant
            lo <= a <= z <= hi <= b@.len(),
            trim_end(b@.subrange(a as int, z as int)) == trim(b@.subrange(lo as int, hi as int)),
        ensures
            a <= z <= hi,
            b@.subrange(a as int, z as int) == trim(b@.subrange(lo as int, hi as int)),
        decreases z - a,
    {
        if z == a {
            break;
        }
        let k = trailing_ws_len(b, a, z);
        if k == 0 {
            break;
        }
        assert(b@.subrange(a as int, z as int).subrange(0, (z - a) - k) =~= b@.subrange(
            a as int,
            z - k,
        ));
        z = z - k;
    }
    (a, z)
}

/// Whether `needle` occurs at byte `i` of `hay`, within `hay[..hi]`.
fn occurs_at_exec(hay: &[u8], hi: usize, needle: &[u8], i: usize) -> (r: bool)
    requires
        hi <= hay@.len(),
    ensures
        r == (i + needle@.len() <= hi && hay@.subrange(i as int, i + needle@.len()) == needle@),
{
    if i > hi || needle.len() > hi - i {
        return false;
    }
    let mut j: usize = 0;
    while j < needle.len()
        invariant
            i + needle@.len() <= hi <= hay@.len(),
            j <= needle@.len(),
            forall|t: int| 0 <= t < j ==> hay@[i + t] == needle@[t],
        decreases needle@.len() - j,
    {
        if hay[i + j] != needle[j] {
            assert(hay@.subrange(i as int, i + needle@.len())[j as int] != needle@[j as int]);
            return false;
        }
        j = j + 1;
    }
    assert(hay@.subrange(i as int, i + needle@.len()) =~= needle@);
    true
}

/// Whether `hay[lo..hi]` begins with `needle`.
pub fn starts_with_exec(hay: &[u8], lo: usize, hi: usize, needle: &[u8]) -> (r: bool)
    requires
        lo <= hi <= hay@.len(),
    ensures
        r == starts_with(hay@.subrange(lo as int, hi as int), needle@),
{
    let r = occurs_at_exec(hay, hi, needle, lo);
    assert(hay@.subrange(lo as int, hi as int).subrange(0, needle@.len() as int) =~= hay@.subrange(
        lo as int,
        lo + needle@.len(),
    ) || needle@.len() > hi - lo);
    r
}

/// Whether `needle` occurs in `hay[lo..hi]`.
pub fn contains_exec(hay: &[u8], lo: usize, hi: usize, needle: &[u8]) -> (r: bool)
    requires
        lo <= hi <= hay@.len(),
    ensures
        r == contains(hay@.subrange(lo as int, hi as int), needle@),
{
    let ghost h = hay@.subrange(lo as int, hi as int);
    let n = needle.len();
    if n == 0 {
        assert(h.subrange(0, 0) =~= needle@);
        assert(occurs_at(h, needle@, 0));
        return true;
    }
    if n > hi - lo {
        assert forall|t: int| !occurs_at(h, needle@, t) by {}
        return false;
    }
    let last = hi - n;
    let mut i = lo;
    while i <= last
        invariant
            lo <= i,
            last + n == hi,
            n == needle@.len(),
            n > 0,
            hi <= hay@.len(),
            h == hay@.subrange(lo as int, hi as int),
            forall|t: int| 0 <= t < i - lo ==> !occurs_at(h, needle@, t),
        decreases last + 1 - i,
    {
        let found = occurs_at_exec(hay, hi, needle, i);
        assert(h.subrange(i - lo, i - lo + n) =~= hay@.subrange(i as int, i + n));
        if found {
            assert(occurs_at(h, needle@, i - lo));
            return true;
        }
        i = i + 1;
    }
    assert forall|t: int| !occurs_at(h, needle@, t) by {
        if 0 <= t && t + n <= h.len() {
            assert(t < i - lo);
        }
    }
    false
}

} // verus!

verus! {

/// What `String::from_utf8_lossy` makes of the bytes `b`.
pub uninterp spec fn utf8_lossy(b: Seq<u8>) -> Seq<char>;

/// Relies on `String::from_utf8_lossy`: the characters depend on the bytes
/// alone, and valid UTF-8 is decoded as it stands.
#[verifier::external_body]
pub(crate) fn string_from_bytes(b: &[u8]) -> (r: String)
    ensures
        r@ == utf8_lossy(b@),
        vstd::utf8::valid_utf8(b@) ==> r@ == vstd::utf8::decode_utf8(b@),
{
    String::from_utf8_lossy(b).into_owned()
}

} // verus!

verus! {

/// The bytes `b[lo..hi]`.
pub fn slice_range(b: &[u8], lo: usize, hi: usize) -> (r: &[u8])
    requires
        lo <= hi <= b@.len(),
    ensures
        r@ == b@.subrange(lo as int, hi as int),
{
    let (_, rest) = b.split_at(lo);
    let (mid, _) = rest.split_at(hi - lo);
    assert(mid@ =~= b@.subrange(lo as int, hi as int));
    mid
}

} // verus!
