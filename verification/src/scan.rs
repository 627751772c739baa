use vstd::prelude::*;
use vstd::utf8::{valid_utf8, decode_utf8, encode_utf8, encode_utf8_decode_utf8};
use vstd::string::StringSliceAdditionalSpecFns;
use crate::text::{str_from_utf8, text_lowercase, to_lowercase};

verus! {

/// Carriage return.
pub const CR: u8 = 13;
/// Line feed.
pub const LF: u8 = 10;

/// The position of the next line end at or after `i`: a CR followed by an
/// LF. A CR that is not followed by an LF hides the byte after it from the
/// search; a CR in the last byte ends nothing.
pub open spec fn next_crlf(d: Seq<u8>, i: int) -> Option<int>
    decreases d.len() - i,
{
    if i < 0 || i >= d.len() {
        None
    } else if d[i] == CR {
        if i + 1 >= d.len() {
            None
        } else if d[i + 1] == LF {
            Some(i)
        } else {
            next_crlf(d, i + 2)
        }
    } else {
        next_crlf(d, i + 1)
    }
}

/// A line end found from `i` lies at or after `i`, with its LF inside `d`.
pub proof fn lemma_next_crlf_bounds(d: Seq<u8>, i: int)
    ensures
        match next_crlf(d, i) {
            Some(k) => i <= k && k + 1 < d.len() && d[k] == CR && d[k + 1] == LF,
            None => true,
        },
    decreases d.len() - i,
{
    if i < 0 || i >= d.len() {
    } else if d[i] == CR {
        if i + 1 >= d.len() {
        } else if d[i + 1] == LF {
        } else {
            lemma_next_crlf_bounds(d, i + 2);
        }
    } else {
        lemma_next_crlf_bounds(d, i + 1);
    }
}

/// The first position in `[i, k)` that holds `sep`, or `k` when none does.
pub open spec fn sep_from(d: Seq<u8>, i: int, k: int, sep: u8) -> int
    decreases k - i,
{
    if i >= k {
        k
    } else if d[i] == sep {
        i
    } else {
        sep_from(d, i + 1, k, sep)
    }
}

pub proof fn lemma_sep_from_bounds(d: Seq<u8>, i: int, k: int, sep: u8)
    requires
        i <= k,
    ensures
        i <= sep_from(d, i, k, sep) <= k,
    decreases k - i,
{
    if i < k && d[i] != sep {
        lemma_sep_from_bounds(d, i + 1, k, sep);
    }
}

/// The bounds of the `n`-th piece (counting from 0) of `d[p..k]` split at
/// every `sep`, when the line has that many pieces.
pub open spec fn piece_bounds(d: Seq<u8>, p: int, k: int, sep: u8, n: nat) -> Option<(int, int)>
    decreases n,
{
    let e = sep_from(d, p, k, sep);
    if n == 0 {
        Some((p, e))
    } else if e < k {
        piece_bounds(d, e + 1, k, sep, (n - 1) as nat)
    } else {
        None
    }
}

pub proof fn lemma_piece_bounds(d: Seq<u8>, p: int, k: int, sep: u8, n: nat)
    requires
        p <= k,
    ensures
        match piece_bounds(d, p, k, sep, n) {
            Some((a, b)) => p <= a <= b <= k,
            None => true,
        },
    decreases n,
{
    lemma_sep_from_bounds(d, p, k, sep);
    let e = sep_from(d, p, k, sep);
    if n > 0 && e < k {
        lemma_piece_bounds(d, e + 1, k, sep, (n - 1) as nat);
    }
}

/// A piece past the first exists only if every earlier one does.
pub proof fn lemma_piece_bounds_prefix(d: Seq<u8>, p: int, k: int, sep: u8, n: nat)
    requires
        n > 0,
        piece_bounds(d, p, k, sep, n) is Some,
    ensures
        piece_bounds(d, p, k, sep, (n - 1) as nat) is Some,
    decreases n,
{
    let e = sep_from(d, p, k, sep);
    if n > 1 {
        lemma_piece_bounds_prefix(d, e + 1, k, sep, (n - 1) as nat);
    }
}

/// ASCII upper-case letters turned to lower case; other bytes kept.
pub open spec fn lower_byte(b: u8) -> u8 {
    if 65 <= b <= 90 {
        (b + 32) as u8
    } else {
        b
    }
}

pub open spec fn ascii_lower(s: Seq<u8>) -> Seq<u8> {
    s.map_values(|b: u8| lower_byte(b))
}

/// The position of the next line end at or after `i`.
pub fn find_crlf(d: &[u8], i: usize) -> (res: Option<usize>)
    ensures
        res matches Some(k) ==> next_crlf(d@, i as int) == Some(k as int),
        res is None ==> next_crlf(d@, i as int) is None,
{
    let mut j = i;
    while j < d.len()
        invariant
            i <= j,
            next_crlf(d@, i as int) == next_crlf(d@, j as int),
        decreases d@.len() - j,
    {
        if d[j] == CR {
            if j + 1 >= d.len() {
                return None;
            } else if d[j + 1] == LF {
                return Some(j);
            } else {
                j = j + 2;
            }
        } else {
            j = j + 1;
        }
    }
    None
}

/// The first position in `[i, k)` that holds `sep`, or `k`.
pub fn find_sep(d: &[u8], i: usize, k: usize, sep: u8) -> (e: usize)
    requires
        i <= k <= d@.len(),
    ensures
        e == sep_from(d@, i as int, k as int, sep),
{
    let mut j = i;
    while j < k
        invariant
            i <= j <= k <= d@.len(),
            sep_from(d@, i as int, k as int, sep) == sep_from(d@, j as int, k as int, sep),
        decreases k - j,
    {
        if d[j] == sep {
            return j;
        }
        j = j + 1;
    }
    j
}

/// The bounds of the `n`-th piece of `d[p..k]` split at `sep`.
pub fn find_piece(d: &[u8], p: usize, k: usize, sep: u8, n: usize) -> (res: Option<(usize, usize)>)
    requires
        p <= k <= d@.len(),
    ensures
        res matches Some((a, b)) ==> piece_bounds(d@, p as int, k as int, sep, n as nat) == Some(
            (a as int, b as int),
        ),
        res is None ==> piece_bounds(d@, p as int, k as int, sep, n as nat) is None,
{
    let mut start = p;
    let mut left = n;
    loop
        invariant
            p <= start <= k <= d@.len(),
            left <= n,
            piece_bounds(d@, p as int, k as int, sep, n as nat) == piece_bounds(
                d@,
                start as int,
                k as int,
                sep,
                left as nat,
            ),
        decreases left,
    {
        let e = find_sep(d, start, k, sep);
        proof {
            lemma_sep_from_bounds(d@, start as int, k as int, sep);
        }
        if left == 0 {
            return Some((start, e));
        } else if e < k {
            start = e + 1;
            left = left - 1;
        } else {
            return None;
        }
    }
}

/// Every byte is ASCII.
pub open spec fn all_ascii(s: Seq<u8>) -> bool {
    forall|i: int| 0 <= i < s.len() ==> #[trigger] s[i] < 128
}

/// The name a header line records: its text in lower case. An ASCII text,
/// or one that is not UTF-8, has its ASCII letters turned to lower case; any
/// other UTF-8 text is lowered by `str::to_lowercase`.
pub open spec fn header_name(s: Seq<u8>) -> Seq<u8> {
    if all_ascii(s) || !valid_utf8(s) {
        ascii_lower(s)
    } else {
        encode_utf8(text_lowercase(decode_utf8(s)))
    }
}

/// A header name made of ASCII bytes is recorded whole: it keeps its
/// length, and each byte is the byte at the same place with `A`-`Z` turned
/// to `a`-`z`.
pub proof fn law_ascii_header_name(s: Seq<u8>)
    requires
        all_ascii(s),
    ensures
        header_name(s).len() == s.len(),
        forall|i: int|
            0 <= i < s.len() ==> #[trigger] header_name(s)[i] == if 65 <= s[i] <= 90 {
                (s[i] + 32) as u8
            } else {
                s[i]
            },
{
}

/// Whether every byte of `d[a..b]` is ASCII.
fn ascii_range(d: &[u8], a: usize, b: usize) -> (r: bool)
    requires
        a <= b <= d@.len(),
    ensures
        r == all_ascii(d@.subrange(a as int, b as int)),
{
    let mut i = a;
    while i < b
        invariant
            a <= i <= b <= d@.len(),
            all_ascii(d@.subrange(a as int, i as int)),
        decreases b - i,
    {
        if d[i] >= 128 {
            assert(d@.subrange(a as int, b as int)[i - a] == d[i as int]);
            return false;
        }
        i = i + 1;
        assert forall|j: int| 0 <= j < i - a implies #[trigger] d@.subrange(a as int, i as int)[j] < 128 by {
            if j < i - 1 - a {
                assert(d@.subrange(a as int, i as int)[j] == d@.subrange(a as int, (i - 1) as int)[j]);
            }
        }
    }
    true
}

/// The header name of the bytes `d[a..b]`.
pub fn name_copy(d: &[u8], a: usize, b: usize) -> (v: Vec<u8>)
    requires
        a <= b <= d@.len(),
    ensures
        v@ == header_name(d@.subrange(a as int, b as int)),
{
    if ascii_range(d, a, b) {
        return lower_copy(d, a, b);
    }
    let raw = &d[a..b];
    match str_from_utf8(raw) {
        Some(text) => {
            proof {
                encode_utf8_decode_utf8(text@);
            }
            let low = to_lowercase(text);
            let bytes = low.as_str().as_bytes();
            let v = copy_range(bytes, 0, bytes.len());
            assert(bytes@.subrange(0, bytes@.len() as int) =~= bytes@);
            v
        },
        None => lower_copy(d, a, b),
    }
}

/// The bytes `d[a..b]`, upper-case ASCII letters turned to lower case.
fn lower_copy(d: &[u8], a: usize, b: usize) -> (v: Vec<u8>)
    requires
        a <= b <= d@.len(),
    ensures
        v@ == ascii_lower(d@.subrange(a as int, b as int)),
{
    let mut v: Vec<u8> = Vec::new();
    let mut i = a;
    while i < b
        invariant
            a <= i <= b <= d@.len(),
            v@ == ascii_lower(d@.subrange(a as int, i as int)),
        decreases b - i,
    {
        let c = d[i];
        let low = if 65 <= c && c <= 90 {
            c + 32
        } else {
            c
        };
        v.push(low);
        i = i + 1;
        assert(v@ =~= ascii_lower(d@.subrange(a as int, i as int)));
    }
    v
}

/// The bytes `d[a..b]`.
pub fn copy_range(d: &[u8], a: usize, b: usize) -> (v: Vec<u8>)
    requires
        a <= b <= d@.len(),
    ensures
        v@ == d@.subrange(a as int, b as int),
{
    let mut v: Vec<u8> = Vec::new();
    let mut i = a;
    while i < b
        invariant
            a <= i <= b <= d@.len(),
            v@ == d@.subrange(a as int, i as int),
        decreases b - i,
    {
        v.push(d[i]);
        i = i + 1;
        assert(v@ =~= d@.subrange(a as int, i as int));
    }
    v
}

} // verus!

verus! {

/// A line end found in `d` is found at the same place when more bytes
/// follow.
pub proof fn lemma_next_crlf_extend(d: Seq<u8>, e: Seq<u8>, i: int)
    requires
        next_crlf(d, i) is Some,
    ensures
        next_crlf(d + e, i) == next_crlf(d, i),
    decreases d.len() - i,
{
    let de = d + e;
    if i < 0 || i >= d.len() {
    } else if d[i] == CR {
        assert(de[i] == CR);
        if i + 1 >= d.len() {
        } else if d[i + 1] == LF {
            assert(de[i + 1] == LF);
        } else {
            assert(de[i + 1] == d[i + 1]);
            lemma_next_crlf_extend(d, e, i + 2);
        }
    } else {
        assert(de[i] == d[i]);
        lemma_next_crlf_extend(d, e, i + 1);
    }
}

/// Splitting a line inside `d` reads only the line.
pub proof fn lemma_sep_from_extend(d: Seq<u8>, e: Seq<u8>, i: int, k: int, sep: u8)
    requires
        0 <= i,
        k <= d.len(),
    ensures
        sep_from(d + e, i, k, sep) == sep_from(d, i, k, sep),
    decreases k - i,
{
    if i < k {
        assert((d + e)[i] == d[i]);
        lemma_sep_from_extend(d, e, i + 1, k, sep);
    }
}

pub proof fn lemma_piece_bounds_extend(d: Seq<u8>, e: Seq<u8>, p: int, k: int, sep: u8, n: nat)
    requires
        0 <= p <= k <= d.len(),
    ensures
        piece_bounds(d + e, p, k, sep, n) == piece_bounds(d, p, k, sep, n),
    decreases n,
{
    lemma_sep_from_extend(d, e, p, k, sep);
    lemma_sep_from_bounds(d, p, k, sep);
    let m = sep_from(d, p, k, sep);
    if n > 0 && m < k {
        lemma_piece_bounds_extend(d, e, m + 1, k, sep, (n - 1) as nat);
    }
}

} // verus!
