//! Documentation of a declaration: the `///` lines directly above it and the
//! content of its `#[doc = "..."]` attributes.
use crate::syntax::{span_bytes, span_wf, Span};
use crate::text::{starts_with, starts_with_exec, string_from_bytes, trim, trim_range, utf8_lossy};
use vstd::prelude::*;

verus! {

/// Where the line that ends at byte `end` begins.
pub open spec fn line_start(text: Seq<u8>, end: int) -> int
    decreases end,
{
    if end <= 0 {
        0
    } else if text[end - 1] == 10 {
        end
    } else {
        line_start(text, end - 1)
    }
}

pub open spec fn doc_marker() -> Seq<u8> {
    seq![47u8, 47u8, 47u8]
}

/// `b` without the copies of `///` that it begins with.
pub open spec fn strip_doc_markers(b: Seq<u8>) -> Seq<u8>
    decreases b.len(),
{
    if b.len() >= 3 && starts_with(b, doc_marker()) {
        strip_doc_markers(b.subrange(3, b.len() as int))
    } else {
        b
    }
}

/// The `///` lines directly above byte `end`, in source order, each without
/// its markers and surrounding whitespace. Blank lines are passed over; the
/// first other line ends the block.
pub open spec fn doc_lines_above(text: Seq<u8>, end: int) -> Seq<Seq<u8>>
    decreases end,
{
    if end <= 0 {
        seq![]
    } else {
        let s = line_start(text, end);
        let t = trim(text.subrange(s, end));
        let above = if 0 < s <= end {
            doc_lines_above(text, s - 1)
        } else {
            seq![]
        };
        if t.len() == 0 {
            above
        } else if starts_with(t, doc_marker()) {
            above.push(trim(strip_doc_markers(t)))
        } else {
            seq![]
        }
    }
}

pub open spec fn doc_attr_marker() -> Seq<u8> {
    seq![35u8, 91u8, 100u8, 111u8, 99u8]
}

/// The first index at or after `i` where `b` holds `c`, or -1.
pub open spec fn index_from(b: Seq<u8>, c: u8, i: int) -> int
    decreases b.len() - i,
{
    if i < 0 || i >= b.len() {
        -1
    } else if b[i] == c {
        i
    } else {
        index_from(b, c, i + 1)
    }
}

/// The last index before `i` where `b` holds `c`, or -1.
pub open spec fn index_before(b: Seq<u8>, c: u8, i: int) -> int
    decreases i,
{
    if i <= 0 || i > b.len() {
        -1
    } else if b[i - 1] == c {
        i - 1
    } else {
        index_before(b, c, i - 1)
    }
}

/// The quoted content of an attribute rendered as `a`: present where `a`
/// begins with `#[doc` and holds two quotes, and taken from the first quote
/// to the last.
pub open spec fn doc_attr_content(a: Seq<u8>) -> Option<Seq<u8>> {
    let first = index_from(a, 34, 0);
    let last = index_before(a, 34, a.len() as int);
    if starts_with(a, doc_attr_marker()) && 0 <= first && first < last {
        Some(a.subrange(first + 1, last))
    } else {
        None
    }
}

/// The contents of the documentation attributes among `attrs`, in order.
pub open spec fn attr_docs(text: Seq<u8>, attrs: Seq<Span>) -> Seq<Seq<u8>>
    decreases attrs.len(),
{
    if attrs.len() == 0 {
        seq![]
    } else {
        let rest = attr_docs(text, attrs.drop_last());
        match doc_attr_content(span_bytes(text, attrs.last())) {
            Some(c) => rest.push(c),
            None => rest,
        }
    }
}

/// The pieces of documentation of a declaration whose head is at byte
/// `head` and whose attributes are `attrs`.
pub open spec fn doc_parts(text: Seq<u8>, head: int, attrs: Seq<Span>) -> Seq<Seq<u8>> {
    doc_lines_above(text, head) + attr_docs(text, attrs)
}

/// `parts` joined with newlines.
pub open spec fn join_lines(parts: Seq<Seq<u8>>) -> Seq<u8>
    decreases parts.len(),
{
    if parts.len() == 0 {
        seq![]
    } else if parts.len() == 1 {
        parts[0]
    } else {
        join_lines(parts.drop_last()) + seq![10u8] + parts.last()
    }
}

/// `doc` is the documentation of a declaration with head `head` and
/// attributes `attrs`: absent where no piece was found, else the pieces
/// joined with newlines.
pub open spec fn doc_comment_is(doc: Option<String>, text: Seq<u8>, head: int, attrs: Seq<Span>) -> bool {
    let parts = doc_parts(text, head, attrs);
    if parts.len() == 0 {
        doc is None
    } else {
        doc matches Some(d) && d@ == utf8_lossy(join_lines(parts))
    }
}

/// The bytes that a list of ranges covers, one piece per range.
pub open spec fn range_pieces(text: Seq<u8>, rs: Seq<(usize, usize)>) -> Seq<Seq<u8>> {
    rs.map_values(|r: (usize, usize)| text.subrange(r.0 as int, r.1 as int))
}

pub open spec fn ranges_wf(rs: Seq<(usize, usize)>, len: nat) -> bool {
    forall|i: int| 0 <= i < rs.len() ==> #[trigger] rs[i].0 <= rs[i].1 && rs[i].1 <= len
}

fn line_start_exec(text: &[u8], end: usize) -> (r: usize)
    requires
        end <= text@.len(),
    ensures
        r == line_start(text@, end as int),
        r <= end,
{
    let mut i = end;
    while i > 0
        invariant
            i <= end <= text@.len(),
            line_start(text@, i as int) == line_start(text@, end as int),
        decreases i,
    {
        if text[i - 1] == 10 {
            return i;
        }
        i = i - 1;
    }
    0
}

/// Where `text[lo..hi]` continues once the copies of `///` it begins with
/// are passed.
fn skip_doc_markers(text: &[u8], lo: usize, hi: usize) -> (r: usize)
    requires
        lo <= hi <= text@.len(),
    ensures
        lo <= r <= hi,
        text@.subrange(r as int, hi as int) == strip_doc_markers(text@.subrange(lo as int, hi as int)),
{
    let mut a = lo;
    loop
        invariant
            lo <= a <= hi <= text@.len(),
            strip_doc_markers(text@.subrange(a as int, hi as int)) == strip_doc_markers(
                text@.subrange(lo as int, hi as int),
            ),
        ensures
            lo <= a <= hi,
            text@.subrange(a as int, hi as int) == strip_doc_markers(text@.subrange(lo as int, hi as int)),
        decreases hi - a,
    {
        let ghost s = text@.subrange(a as int, hi as int);
        if hi - a >= 3 && text[a] == 47 && text[a + 1] == 47 && text[a + 2] == 47 {
            assert(s.subrange(0, 3) =~= doc_marker());
            assert(s.subrange(3, s.len() as int) =~= text@.subrange(a + 3, hi as int));
            a = a + 3;
        } else {
            assert(!(s.len() >= 3 && starts_with(s, doc_marker()))) by {
                if s.len() >= 3 && starts_with(s, doc_marker()) {
                    assert(s.subrange(0, 3)[0] == s[0]);
                    assert(s.subrange(0, 3)[1] == s[1]);
                    assert(s.subrange(0, 3)[2] == s[2]);
                }
            }
            break;
        }
    }
    a
}

/// The ranges of the `///` lines directly above byte `end`, in source order,
/// each without its markers and surrounding whitespace.
pub fn doc_line_ranges(text: &[u8], end: usize) -> (r: Vec<(usize, usize)>)
    requires
        end <= text@.len(),
    ensures
        ranges_wf(r@, text@.len()),
        range_pieces(text@, r@) == doc_lines_above(text@, end as int),
{
    let mut found: Vec<(usize, usize)> = Vec::new();
    let mut pos = end;
    loop
        invariant_except_break
            doc_lines_above(text@, end as int) == doc_lines_above(text@, pos as int)
                + range_pieces(text@, found@),
        invariant
            pos <= end <= text@.len(),
            ranges_wf(found@, text@.len()),
        ensures
            ranges_wf(found@, text@.len()),
            doc_lines_above(text@, end as int) == range_pieces(text@, found@),
        decreases pos,
    {
        if pos == 0 {
            assert(doc_lines_above(text@, 0) + range_pieces(text@, found@) =~= range_pieces(
                text@,
                found@,
            ));
            break;
        }
        let s = line_start_exec(text, pos);
        let (a, b) = trim_range(text, s, pos);
        let ghost t = trim(text@.subrange(s as int, pos as int));
        let ghost above = if s > 0 {
            doc_lines_above(text@, s - 1)
        } else {
            seq![]
        };
        if a == b {
            assert(t.len() == 0);
            if s == 0 {
                assert(doc_lines_above(text@, pos as int) == Seq::<Seq<u8>>::empty());
                assert(Seq::<Seq<u8>>::empty() + range_pieces(text@, found@) =~= range_pieces(
                    text@,
                    found@,
                ));
                break;
            }
            pos = s - 1;
        } else if b - a >= 3 && text[a] == 47 && text[a + 1] == 47 && text[a + 2] == 47 {
            assert(t.subrange(0, 3) =~= doc_marker());
            let c = skip_doc_markers(text, a, b);
            let (x, y) = trim_range(text, c, b);
            let ghost line = trim(strip_doc_markers(t));
            assert(text@.subrange(x as int, y as int) == line);
            let ghost old_found = found@;
            found.insert(0, (x, y));
            assert(range_pieces(text@, found@) =~= seq![line] + range_pieces(text@, old_found));
            assert(doc_lines_above(text@, pos as int) == above.push(line));
            if s == 0 {
                assert(above.push(line) + range_pieces(text@, old_found) =~= range_pieces(
                    text@,
                    found@,
                ));
                break;
            }
            assert(above.push(line) + range_pieces(text@, old_found) =~= above + range_pieces(
                text@,
                found@,
            ));
            pos = s - 1;
        } else {
            assert(!starts_with(t, doc_marker())) by {
                if starts_with(t, doc_marker()) {
                    assert(t.subrange(0, 3)[0] == t[0]);
                    assert(t.subrange(0, 3)[1] == t[1]);
                    assert(t.subrange(0, 3)[2] == t[2]);
                }
            }
            assert(doc_lines_above(text@, pos as int) == Seq::<Seq<u8>>::empty());
            assert(Seq::<Seq<u8>>::empty() + range_pieces(text@, found@) =~= range_pieces(
                text@,
                found@,
            ));
            break;
        }
    }
    found
}

} // verus!

verus! {

fn first_quote(text: &[u8], lo: usize, hi: usize) -> (r: Option<usize>)
    requires
        lo <= hi <= text@.len(),
    ensures
        index_from(text@.subrange(lo as int, hi as int), 34, 0) == match r {
            Some(i) => i - lo,
            None => -1,
        },
        r matches Some(i) ==> lo <= i < hi,
{
    let ghost a = text@.subrange(lo as int, hi as int);
    let mut i = lo;
    while i < hi
        invariant
            lo <= i <= hi <= text@.len(),
            a == text@.subrange(lo as int, hi as int),
            index_from(a, 34, 0) == index_from(a, 34, i - lo),
        decreases hi - i,
    {
        if text[i] == 34 {
            return Some(i);
        }
        i = i + 1;
    }
    None
}

fn last_quote(text: &[u8], lo: usize, hi: usize) -> (r: Option<usize>)
    requires
        lo <= hi <= text@.len(),
    ensures
        index_before(text@.subrange(lo as int, hi as int), 34, hi - lo) == match r {
            Some(i) => i - lo,
            None => -1,
        },
        r matches Some(i) ==> lo <= i < hi,
{
    let ghost a = text@.subrange(lo as int, hi as int);
    let mut j = hi;
    while j > lo
        invariant
            lo <= j <= hi <= text@.len(),
            a == text@.subrange(lo as int, hi as int),
            index_before(a, 34, hi - lo) == index_before(a, 34, j - lo),
        decreases j,
    {
        if text[j - 1] == 34 {
            return Some(j - 1);
        }
        j = j - 1;
    }
    None
}

fn doc_attr_marker_bytes() -> (r: Vec<u8>)
    ensures
        r@ == doc_attr_marker(),
{
    let r = vec![35u8, 91u8, 100u8, 111u8, 99u8];
    assert(r@ =~= doc_attr_marker());
    r
}

/// The range of the quoted content of the attribute at `a`, where it is a
/// documentation attribute.
fn attr_doc_range(text: &[u8], a: Span) -> (r: Option<(usize, usize)>)
    requires
        span_wf(a, text@.len()),
    ensures
        match (r, doc_attr_content(span_bytes(text@, a))) {
            (Some(x), Some(c)) => x.0 <= x.1 <= text@.len() && text@.subrange(x.0 as int, x.1 as int) == c,
            (None, None) => true,
            _ => false,
        },
{
    let ghost b = span_bytes(text@, a);
    if !starts_with_exec(text, a.start, a.end, doc_attr_marker_bytes().as_slice()) {
        return None;
    }
    let first = first_quote(text, a.start, a.end);
    let last = last_quote(text, a.start, a.end);
    match (first, last) {
        (Some(f), Some(l)) => {
            if f < l {
                assert(b.subrange(f - a.start + 1, l - a.start) =~= text@.subrange(f + 1, l as int));
                Some((f + 1, l))
            } else {
                None
            }
        },
        _ => None,
    }
}

/// The ranges of the documentation attributes' contents among `attrs`.
fn attr_doc_ranges(text: &[u8], attrs: &Vec<Span>) -> (r: Vec<(usize, usize)>)
    requires
        forall|i: int| 0 <= i < attrs@.len() ==> span_wf(#[trigger] attrs@[i], text@.len()),
    ensures
        ranges_wf(r@, text@.len()),
        range_pieces(text@, r@) == attr_docs(text@, attrs@),
{
    let mut r: Vec<(usize, usize)> = Vec::new();
    let mut i: usize = 0;
    while i < attrs.len()
        invariant
            i <= attrs@.len(),
            forall|k: int| 0 <= k < attrs@.len() ==> span_wf(#[trigger] attrs@[k], text@.len()),
            ranges_wf(r@, text@.len()),
            range_pieces(text@, r@) == attr_docs(text@, attrs@.subrange(0, i as int)),
        decreases attrs@.len() - i,
    {
        let ghost pre = attrs@.subrange(0, i as int + 1);
        assert(pre.drop_last() =~= attrs@.subrange(0, i as int));
        assert(pre.last() == attrs@[i as int]);
        match attr_doc_range(text, attrs[i]) {
            Some(x) => {
                let ghost old_r = r@;
                r.push(x);
                assert(forall|k: int| 0 <= k < old_r.len() ==> r@[k] == old_r[k]);
                assert(r@[old_r.len() as int] == x);
                assert(range_pieces(text@, r@) =~= range_pieces(text@, old_r).push(
                    text@.subrange(x.0 as int, x.1 as int),
                ));
            },
            None => {},
        }
        i = i + 1;
    }
    assert(attrs@.subrange(0, attrs@.len() as int) =~= attrs@);
    r
}

/// The pieces that the ranges `parts` cover, joined with newlines.
fn join_ranges(text: &[u8], parts: &Vec<(usize, usize)>) -> (r: Vec<u8>)
    requires
        ranges_wf(parts@, text@.len()),
    ensures
        r@ == join_lines(range_pieces(text@, parts@)),
{
    let mut r: Vec<u8> = Vec::new();
    let mut i: usize = 0;
    while i < parts.len()
        invariant
            i <= parts@.len(),
            ranges_wf(parts@, text@.len()),
            r@ == join_lines(range_pieces(text@, parts@.subrange(0, i as int))),
        decreases parts@.len() - i,
    {
        let ghost old_r = r@;
        let (lo, hi) = parts[i];
        if i > 0 {
            r.push(10u8);
        }
        let mut k = lo;
        while k < hi
            invariant
                lo <= k <= hi <= text@.len(),
                r@ == (if i > 0 { old_r + seq![10u8] } else { old_r }) + text@.subrange(
                    lo as int,
                    k as int,
                ),
            decreases hi - k,
        {
            r.push(text[k]);
            assert(text@.subrange(lo as int, k + 1) =~= text@.subrange(lo as int, k as int).push(
                text@[k as int],
            ));
            k = k + 1;
        }
        let ghost pieces = range_pieces(text@, parts@.subrange(0, i as int + 1));
        assert(pieces.drop_last() =~= range_pieces(text@, parts@.subrange(0, i as int)));
        assert(pieces.last() == text@.subrange(lo as int, hi as int));
        if i == 0 {
            assert(old_r =~= Seq::<u8>::empty());
            assert(r@ =~= pieces[0]);
        }
        i = i + 1;
    }
    assert(parts@.subrange(0, parts@.len() as int) =~= parts@);
    r
}

/// The documentation of a declaration whose head is at byte `head` and whose
/// attributes are `attrs`: the `///` lines directly above the head, then the
/// contents of its `#[doc = "..."]` attributes, joined with newlines; `None`
/// where there are none.
pub fn doc_comment(text: &[u8], head: usize, attrs: &Vec<Span>) -> (r: Option<String>)
    requires
        head <= text@.len(),
        forall|i: int| 0 <= i < attrs@.len() ==> span_wf(#[trigger] attrs@[i], text@.len()),
    ensures
        doc_comment_is(r, text@, head as int, attrs@),
{
    let mut parts = doc_line_ranges(text, head);
    let mut more = attr_doc_ranges(text, attrs);
    let ghost p1 = parts@;
    let ghost p2 = more@;
    parts.append(&mut more);
    assert(range_pieces(text@, parts@) =~= range_pieces(text@, p1) + range_pieces(text@, p2));
    assert(ranges_wf(parts@, text@.len())) by {
        assert forall|i: int| 0 <= i < parts@.len() implies #[trigger] parts@[i].0 <= parts@[i].1
            && parts@[i].1 <= text@.len() by {
            if i >= p1.len() {
                assert(parts@[i] == p2[i - p1.len()]);
            }
        }
    }
    if parts.len() == 0 {
        None
    } else {
        let bytes = join_ranges(text, &parts);
        Some(string_from_bytes(bytes.as_slice()))
    }
}

} // verus!
