//! Number parsing and ordering on bytes.
use vstd::prelude::*;

verus! {

pub open spec fn is_hex_digit(b: u8) -> bool {
    (48 <= b <= 57) || (97 <= b <= 102) || (65 <= b <= 70)
}

pub open spec fn hex_digit_value(b: u8) -> int {
    if 48 <= b <= 57 {
        b - 48
    } else if 97 <= b <= 102 {
        b - 87
    } else if 65 <= b <= 70 {
        b - 55
    } else {
        0
    }
}

pub open spec fn all_hex(s: Seq<u8>) -> bool {
    forall|i: int| 0 <= i < s.len() ==> is_hex_digit(#[trigger] s[i])
}

/// The value of `s` read as hexadecimal digits, most significant first.
pub open spec fn hex_value(s: Seq<u8>) -> nat
    decreases s.len(),
{
    if s.len() == 0 {
        0
    } else {
        (hex_value(s.drop_last()) * 16 + hex_digit_value(s.last())) as nat
    }
}

/// `s` read the way `u32::from_str_radix(s, 16)` reads it: an optional `+`
/// sign followed by at least one hexadecimal digit, with a value that fits
/// in a `u32`.
pub open spec fn hex_u32(s: Seq<u8>) -> Option<u32> {
    let d = if s.len() > 1 && s[0] == 43u8 {
        s.drop_first()
    } else {
        s
    };
    if d.len() == 0 || !all_hex(d) || hex_value(d) > u32::MAX {
        None
    } else {
        Some(hex_value(d) as u32)
    }
}

proof fn lemma_hex_value_prefix(s: Seq<u8>, k: int)
    requires
        0 <= k <= s.len(),
    ensures
        hex_value(s.take(k)) <= hex_value(s),
    decreases s.len(),
{
    if k < s.len() {
        assert(s.drop_last().take(k) =~= s.take(k));
        lemma_hex_value_prefix(s.drop_last(), k);
    } else {
        assert(s.take(k) =~= s);
    }
}

fn hex_digit(b: u8) -> (r: Option<u32>)
    ensures
        is_hex_digit(b) <==> r is Some,
        r matches Some(v) ==> v == hex_digit_value(b) && v < 16,
{
    if 48 <= b && b <= 57 {
        Some((b - 48) as u32)
    } else if 97 <= b && b <= 102 {
        Some((b - 87) as u32)
    } else if 65 <= b && b <= 70 {
        Some((b - 55) as u32)
    } else {
        None
    }
}

/// Read `s[lo..hi]` as a hexadecimal `u32`, as `hex_u32` describes.
pub fn parse_hex_u32(s: &[u8], lo: usize, hi: usize) -> (r: Option<u32>)
    requires
        lo <= hi <= s@.len(),
    ensures
        r == hex_u32(s@.subrange(lo as int, hi as int)),
{
    let ghost t = s@.subrange(lo as int, hi as int);
    let mut i: usize = lo;
    if hi - lo > 1 && s[lo] == 43u8 {
        i = lo + 1;
    }
    let ghost d = s@.subrange(i as int, hi as int);
    proof {
        if t.len() > 1 && t[0] == 43u8 {
            assert(d =~= t.drop_first());
        } else {
            assert(d =~= t);
        }
    }
    if i == hi {
        return None;
    }
    let start: usize = i;
    let mut acc: u32 = 0;
    while i < hi
        invariant
            lo <= start <= i <= hi <= s@.len(),
            t == s@.subrange(lo as int, hi as int),
            d == s@.subrange(start as int, hi as int),
            d == (if t.len() > 1 && t[0] == 43u8 {
                t.drop_first()
            } else {
                t
            }),
            start < hi,
            all_hex(s@.subrange(start as int, i as int)),
            acc == hex_value(s@.subrange(start as int, i as int)),
        decreases hi - i,
    {
        let ghost pre = s@.subrange(start as int, i as int);
        let ghost next = s@.subrange(start as int, i + 1);
        assert(next.drop_last() =~= pre);
        match hex_digit(s[i]) {
            None => {
                assert(d[i - start] == s@[i as int]);
                assert(!all_hex(d));
                return None;
            },
            Some(v) => {
                if acc > (u32::MAX - v) / 16 {
                    proof {
                        assert(hex_value(next) == acc * 16 + v);
                        assert(hex_value(next) > u32::MAX);
                        assert(d.take(i + 1 - start) =~= next);
                        lemma_hex_value_prefix(d, i + 1 - start);
                    }
                    return None;
                }
                acc = acc * 16 + v;
                i = i + 1;
                assert(all_hex(next)) by {
                    assert forall|k: int| 0 <= k < next.len() implies is_hex_digit(#[trigger] next[k]) by {
                        if k < pre.len() {
                            assert(next[k] == pre[k]);
                        }
                    }
                }
            },
        }
    }
    Some(acc)
}

pub open spec fn is_decimal_digit(b: u8) -> bool {
    48 <= b <= 57
}

pub open spec fn all_decimal(s: Seq<u8>) -> bool {
    forall|i: int| 0 <= i < s.len() ==> is_decimal_digit(#[trigger] s[i])
}

/// The value of `s` read as decimal digits, most significant first.
pub open spec fn decimal_value(s: Seq<u8>) -> nat
    decreases s.len(),
{
    if s.len() == 0 {
        0
    } else {
        (decimal_value(s.drop_last()) * 10 + (s.last() - 48)) as nat
    }
}

/// The decimal value of the digits `s[lo..hi]`, or `u64::MAX` where it is larger.
pub fn saturating_decimal(s: &[u8], lo: usize, hi: usize) -> (r: u64)
    requires
        lo <= hi <= s@.len(),
        all_decimal(s@.subrange(lo as int, hi as int)),
    ensures
        r == (if decimal_value(s@.subrange(lo as int, hi as int)) <= u64::MAX {
            decimal_value(s@.subrange(lo as int, hi as int))
        } else {
            u64::MAX as nat
        }),
{
    let mut i: usize = lo;
    let mut acc: u64 = 0;
    while i < hi
        invariant
            lo <= i <= hi <= s@.len(),
            all_decimal(s@.subrange(lo as int, hi as int)),
            acc == (if decimal_value(s@.subrange(lo as int, i as int)) <= u64::MAX {
                decimal_value(s@.subrange(lo as int, i as int))
            } else {
                u64::MAX as nat
            }),
        decreases hi - i,
    {
        let ghost pre = s@.subrange(lo as int, i as int);
        let ghost next = s@.subrange(lo as int, i + 1);
        assert(next.drop_last() =~= pre);
        assert(s@.subrange(lo as int, hi as int)[i - lo] == s@[i as int]);
        let d: u64 = (s[i] - 48) as u64;
        assert(decimal_value(next) == decimal_value(pre) * 10 + d);
        if acc > (u64::MAX - d) / 10 {
            acc = u64::MAX;
        } else {
            acc = acc * 10 + d;
        }
        i = i + 1;
    }
    acc
}

/// `a` sorts before `b` byte by byte: at the first place where they differ
/// `a` has the smaller byte, or `a` is a proper prefix of `b` (the order of
/// `Ord` on byte slices and on Unix file names).
pub open spec fn bytes_lt(a: Seq<u8>, b: Seq<u8>) -> bool
    decreases a.len(),
{
    if a.len() == 0 {
        b.len() > 0
    } else if b.len() == 0 {
        false
    } else if a[0] != b[0] {
        a[0] < b[0]
    } else {
        bytes_lt(a.drop_first(), b.drop_first())
    }
}

pub proof fn lemma_bytes_lt_transitive(a: Seq<u8>, b: Seq<u8>, c: Seq<u8>)
    requires
        bytes_lt(a, b),
        bytes_lt(b, c),
    ensures
        bytes_lt(a, c),
    decreases a.len(),
{
    if a.len() > 0 && b.len() > 0 && c.len() > 0 && a[0] == b[0] && b[0] == c[0] {
        lemma_bytes_lt_transitive(a.drop_first(), b.drop_first(), c.drop_first());
    }
}

pub proof fn lemma_bytes_lt_total(a: Seq<u8>, b: Seq<u8>)
    ensures
        bytes_lt(a, b) || bytes_lt(b, a) || a == b,
    decreases a.len(),
{
    if a.len() == 0 && b.len() == 0 {
        assert(a =~= b);
    } else if a.len() > 0 && b.len() > 0 && a[0] == b[0] {
        lemma_bytes_lt_total(a.drop_first(), b.drop_first());
        if a.drop_first() == b.drop_first() {
            assert(a =~= seq![a[0]] + a.drop_first());
            assert(b =~= seq![b[0]] + b.drop_first());
        }
    }
}

/// Whether `a` sorts before `b`, as `bytes_lt` describes.
pub fn bytes_before(a: &[u8], b: &[u8]) -> (r: bool)
    ensures
        r == bytes_lt(a@, b@),
{
    let mut i: usize = 0;
    assert(a@.skip(0) =~= a@ && b@.skip(0) =~= b@);
    while i < a.len() && i < b.len()
        invariant
            i <= a@.len(),
            i <= b@.len(),
            bytes_lt(a@, b@) == bytes_lt(a@.skip(i as int), b@.skip(i as int)),
        decreases a@.len() - i,
    {
        assert(a@.skip(i as int)[0] == a@[i as int]);
        assert(b@.skip(i as int)[0] == b@[i as int]);
        if a[i] != b[i] {
            return a[i] < b[i];
        }
        assert(a@.skip(i as int).drop_first() =~= a@.skip(i + 1));
        assert(b@.skip(i as int).drop_first() =~= b@.skip(i + 1));
        i = i + 1;
    }
    i < b.len()
}

} // verus!
