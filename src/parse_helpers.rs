use vstd::prelude::*;

use crate::error::{GreenButtonError, GreenButtonErrorView};
use crate::text::{chars_of, int_in_range, parse_i32, parse_i64};
use crate::xml::{all_text, all_text_of, doc_wf, node_views, XmlNode};

verus! {

/// The length in bytes of the namespace prefix `{http://naesb.org/espi}`.
pub const ESPI_PREFIX_LEN: usize = 23;

/// The number of bytes of `c` in UTF-8.
pub open spec fn utf8_len(c: char) -> int {
    if (c as u32) < 0x80 {
        1
    } else if (c as u32) < 0x800 {
        2
    } else if (c as u32) < 0x10000 {
        3
    } else {
        4
    }
}

/// The number of bytes of `s` in UTF-8.
pub open spec fn utf8_bytes(s: Seq<char>) -> int
    decreases s.len(),
{
    if s.len() == 0 {
        0
    } else {
        utf8_bytes(s.drop_last()) + utf8_len(s.last())
    }
}

/// The number of characters of `s` that its first `b` bytes hold, if byte
/// `b` falls on a character boundary.
pub open spec fn chars_in_bytes(s: Seq<char>, b: int) -> Option<int>
    decreases s.len(),
{
    if b == 0 {
        Some(0)
    } else if b < 0 || s.len() == 0 {
        None
    } else {
        match chars_in_bytes(s.drop_first(), b - utf8_len(s[0])) {
            Some(k) => Some(k + 1),
            None => None,
        }
    }
}

/// `x` without its first `ESPI_PREFIX_LEN` bytes; `x` itself when it is
/// shorter than that or when that byte is not a character boundary.
pub open spec fn stripped(x: Seq<char>) -> Seq<char> {
    if utf8_bytes(x) < ESPI_PREFIX_LEN {
        x
    } else {
        match chars_in_bytes(x, ESPI_PREFIX_LEN as int) {
            Some(k) => x.skip(k),
            None => x,
        }
    }
}

proof fn lemma_prefix_bytes_at_most(x: Seq<char>, i: int)
    requires
        0 <= i <= x.len(),
    ensures
        utf8_bytes(x.take(i)) <= utf8_bytes(x),
    decreases x.len() - i,
{
    if i < x.len() {
        lemma_prefix_bytes_at_most(x, i + 1);
        assert(x.take(i + 1).drop_last() =~= x.take(i));
    } else {
        assert(x.take(i) =~= x);
    }
}

/// The number of UTF-8 bytes of `c`.
fn utf8_len_of(c: char) -> (r: usize)
    ensures
        r == utf8_len(c),
{
    let v = c as u32;
    if v < 0x80 {
        1
    } else if v < 0x800 {
        2
    } else if v < 0x10000 {
        3
    } else {
        4
    }
}

/// Drops the namespace prefix's length in bytes from a tag name at least
/// that long, where that length ends a character.
pub fn strip_espi_prefix<'a>(x: &'a str) -> (r: &'a str)
    ensures
        r@ == stripped(x@),
{
    let cs = chars_of(x);
    let n = cs.len();
    let mut i: usize = 0;
    let mut b: usize = 0;
    assert(x@.skip(0) =~= x@);
    assert(x@.take(0) =~= Seq::<char>::empty());
    while i < n && b < ESPI_PREFIX_LEN
        invariant
            cs@ == x@,
            n == cs@.len(),
            i <= n,
            b == utf8_bytes(x@.take(i as int)),
            b <= ESPI_PREFIX_LEN + 3,
            chars_in_bytes(x@, ESPI_PREFIX_LEN as int) == match chars_in_bytes(
                x@.skip(i as int),
                ESPI_PREFIX_LEN - b,
            ) {
                Some(k) => Some(k + i),
                None => None::<int>,
            },
        decreases n - i,
    {
        assert(x@.take(i + 1).drop_last() =~= x@.take(i as int));
        assert(x@.skip(i as int).drop_first() =~= x@.skip(i + 1));
        b = b + utf8_len_of(cs[i]);
        i = i + 1;
    }
    proof {
        lemma_prefix_bytes_at_most(x@, i as int);
    }
    if b < ESPI_PREFIX_LEN {
        assert(x@.take(i as int) =~= x@);
        x
    } else if b == ESPI_PREFIX_LEN {
        assert(x@.subrange(i as int, n as int) =~= x@.skip(i as int));
        x.substring_char(i, n)
    } else {
        x
    }
}

/// The number that a numeric element's text gives: zero for empty text,
/// else the decimal integer written there if it lies in `lo..=hi`.
pub open spec fn number_in(t: Seq<char>, lo: int, hi: int) -> Option<int> {
    if t.len() == 0 {
        Some(0)
    } else {
        int_in_range(t, 10, true, lo, hi)
    }
}

/// The `i64` that the text of node `c` and its descendants writes.
pub fn parse_text_i64(nodes: &Vec<XmlNode>, c: usize) -> (r: Result<i64, GreenButtonError>)
    requires
        doc_wf(node_views(nodes@)),
        c < nodes@.len(),
    ensures
        ({
            let t = all_text_of(node_views(nodes@), c as int);
            match number_in(t, i64::MIN as int, i64::MAX as int) {
                Some(v) => r == Ok::<i64, GreenButtonError>(v as i64),
                None => r matches Err(e) && e@ == GreenButtonErrorView::InvalidNumber(t),
            }
        }),
{
    let text = all_text(nodes, c);
    if text.as_str().unicode_len() == 0 {
        return Ok(0);
    }
    match parse_i64(text.as_str()) {
        Some(v) => Ok(v),
        None => Err(GreenButtonError::InvalidNumber(text)),
    }
}

/// The `i32` that the text of node `c` and its descendants writes.
pub fn parse_text_i32(nodes: &Vec<XmlNode>, c: usize) -> (r: Result<i32, GreenButtonError>)
    requires
        doc_wf(node_views(nodes@)),
        c < nodes@.len(),
    ensures
        ({
            let t = all_text_of(node_views(nodes@), c as int);
            match number_in(t, i32::MIN as int, i32::MAX as int) {
                Some(v) => r == Ok::<i32, GreenButtonError>(v as i32),
                None => r matches Err(e) && e@ == GreenButtonErrorView::InvalidNumber(t),
            }
        }),
{
    let text = all_text(nodes, c);
    if text.as_str().unicode_len() == 0 {
        return Ok(0);
    }
    match parse_i32(text.as_str()) {
        Some(v) => Ok(v),
        None => Err(GreenButtonError::InvalidNumber(text)),
    }
}

} // verus!
