//! Decimal and hexadecimal text codecs over raw bytes: rendering of
//! unsigned numbers, parsing of decimal fields, and the lowercase hex
//! rendering and parsing of fixed-length hashes.

use vstd::prelude::*;

verus! {

pub open spec fn is_digit(c: u8) -> bool {
    48 <= c <= 57
}

pub open spec fn all_digits(s: Seq<u8>) -> bool {
    forall|j: int| 0 <= j < s.len() ==> is_digit(#[trigger] s[j])
}

/// Value of a decimal digit string, most significant digit first.
pub open spec fn spec_dec_val(s: Seq<u8>) -> nat
    decreases s.len(),
{
    if s.len() == 0 {
        0
    } else {
        spec_dec_val(s.drop_last()) * 10 + (s.last() - 48) as nat
    }
}

/// Decimal rendering of `n`, without leading zeros (except for zero itself).
pub open spec fn spec_dec(n: nat) -> Seq<u8>
    decreases n,
{
    if n < 10 {
        seq![(48 + n) as u8]
    } else {
        spec_dec(n / 10).push((48 + n % 10) as u8)
    }
}

/// A decimal digit string's value only grows as more digits follow.
pub proof fn lemma_dec_val_prefix_le(s: Seq<u8>, i: int)
    requires
        0 <= i <= s.len(),
    ensures
        spec_dec_val(s.take(i)) <= spec_dec_val(s),
    decreases s.len() - i,
{
    if i == s.len() {
        assert(s.take(i) =~= s);
    } else {
        assert(s.take(i + 1).drop_last() =~= s.take(i));
        assert(spec_dec_val(s.take(i)) <= spec_dec_val(s.take(i + 1)));
        lemma_dec_val_prefix_le(s, i + 1);
    }
}

/// Parse a decimal field. Returns the value exactly when the field is a
/// non-empty, all-digit string whose value fits in a `u64`.
pub fn parse_decimal(s: &[u8]) -> (r: Option<u64>)
    ensures
        match r {
            Some(n) => s@.len() > 0 && all_digits(s@) && n == spec_dec_val(s@),
            None => s@.len() == 0 || !all_digits(s@) || spec_dec_val(s@) > u64::MAX,
        },
{
    if s.len() == 0 {
        return None;
    }
    let mut n: u64 = 0;
    let mut i: usize = 0;
    while i < s.len()
        invariant
            i <= s@.len(),
            all_digits(s@.take(i as int)),
            n == spec_dec_val(s@.take(i as int)),
        decreases s@.len() - i,
    {
        let c = s[i];
        if c < 48 || c > 57 {
            return None;
        }
        let d = (c - 48) as u64;
        if n > (u64::MAX - d) / 10 {
            proof {
                assert(s@.take(i + 1).drop_last() =~= s@.take(i as int));
                assert(spec_dec_val(s@.take(i + 1)) == n * 10 + d);
                assert(n * 10 + d > u64::MAX) by (nonlinear_arith)
                    requires
                        n > (u64::MAX - d) / 10,
                        d <= 9,
                {}
                lemma_dec_val_prefix_le(s@, i + 1);
            }
            return None;
        }
        proof {
            assert(n * 10 + d <= u64::MAX) by (nonlinear_arith)
                requires
                    n <= (u64::MAX - d) / 10,
                    d <= 9,
            {}
            assert(s@.take(i + 1).drop_last() =~= s@.take(i as int));
        }
        n = n * 10 + d;
        i = i + 1;
    }
    proof {
        assert(s@.take(s@.len() as int) =~= s@);
    }
    Some(n)
}

/// Render `n` in decimal.
pub fn render_decimal(n: u64) -> (r: Vec<u8>)
    ensures
        r@ == spec_dec(n as nat),
    decreases n,
{
    if n < 10 {
        let mut r: Vec<u8> = Vec::new();
        r.push(48 + n as u8);
        proof {
            assert(r@ =~= spec_dec(n as nat));
        }
        r
    } else {
        let mut r = render_decimal(n / 10);
        r.push(48 + (n % 10) as u8);
        r
    }
}

/// Lowercase hex character of a value below 16.
pub open spec fn nibble_hex(n: int) -> u8 {
    if n < 10 {
        (48 + n) as u8
    } else {
        (87 + n) as u8
    }
}

/// Lowercase hex rendering of a byte string, two characters per byte.
pub open spec fn spec_hex(s: Seq<u8>) -> Seq<u8> {
    Seq::new(
        s.len() * 2,
        |i: int| if i % 2 == 0 {
            nibble_hex(s[i / 2] as int / 16)
        } else {
            nibble_hex(s[i / 2] as int % 16)
        },
    )
}

pub fn to_hex(s: &[u8]) -> (r: Vec<u8>)
    ensures
        r@ == spec_hex(s@),
{
    let mut r: Vec<u8> = Vec::new();
    let mut i: usize = 0;
    proof {
        assert(r@ =~= spec_hex(s@.take(0)));
    }
    while i < s.len()
        invariant
            i <= s@.len(),
            r@ == spec_hex(s@.take(i as int)),
        decreases s@.len() - i,
    {
        let b = s[i];
        let hi = b / 16;
        let lo = b % 16;
        let hc: u8 = if hi < 10 {
            48 + hi
        } else {
            87 + hi
        };
        let lc: u8 = if lo < 10 {
            48 + lo
        } else {
            87 + lo
        };
        r.push(hc);
        r.push(lc);
        proof {
            assert(r@ =~= spec_hex(s@.take(i + 1)));
        }
        i = i + 1;
    }
    proof {
        assert(s@.take(s@.len() as int) =~= s@);
    }
    r
}

pub open spec fn is_hex_digit(c: u8) -> bool {
    (48 <= c <= 57) || (97 <= c <= 102) || (65 <= c <= 70)
}

pub open spec fn hex_digit_val(c: u8) -> int {
    if 48 <= c <= 57 {
        c - 48
    } else if 97 <= c <= 102 {
        c - 87
    } else {
        c - 55
    }
}

pub open spec fn all_hex_digits(s: Seq<u8>) -> bool {
    forall|j: int| 0 <= j < s.len() ==> is_hex_digit(#[trigger] s[j])
}

/// Bytes of an even-length hex string, one byte for each pair of digits.
pub open spec fn spec_hex_decode(s: Seq<u8>) -> Seq<u8> {
    Seq::new(s.len() / 2, |i: int| (hex_digit_val(s[2 * i]) * 16 + hex_digit_val(s[2 * i + 1])) as u8)
}

fn hex_digit(c: u8) -> (r: Option<u8>)
    ensures
        match r {
            Some(v) => is_hex_digit(c) && v == hex_digit_val(c),
            None => !is_hex_digit(c),
        },
{
    if 48 <= c && c <= 57 {
        Some(c - 48)
    } else if 97 <= c && c <= 102 {
        Some(c - 87)
    } else if 65 <= c && c <= 70 {
        Some(c - 55)
    } else {
        None
    }
}

/// Parse an even-length hex string. Returns the decoded bytes exactly when
/// every character is a hex digit.
pub fn parse_hex(s: &[u8]) -> (r: Option<Vec<u8>>)
    requires
        s@.len() % 2 == 0,
    ensures
        match r {
            Some(v) => all_hex_digits(s@) && v@ == spec_hex_decode(s@),
            None => !all_hex_digits(s@),
        },
{
    let mut r: Vec<u8> = Vec::new();
    let mut i: usize = 0;
    proof {
        assert(r@ =~= spec_hex_decode(s@).take(0));
    }
    while i + 1 < s.len()
        invariant
            i <= s@.len(),
            i % 2 == 0,
            s@.len() % 2 == 0,
            all_hex_digits(s@.take(i as int)),
            r@ == spec_hex_decode(s@).take(i as int / 2),
        decreases s@.len() - i,
    {
        let h = match hex_digit(s[i]) {
            Some(v) => v,
            None => {
                return None;
            },
        };
        let l = match hex_digit(s[i + 1]) {
            Some(v) => v,
            None => {
                return None;
            },
        };
        r.push(h * 16 + l);
        proof {
            assert(r@ =~= spec_hex_decode(s@).take((i as int + 2) / 2));
        }
        i = i + 2;
    }
    proof {
        assert(i == s@.len());
        assert(s@.take(i as int) =~= s@);
        assert(spec_hex_decode(s@).take(i as int / 2) =~= spec_hex_decode(s@));
    }
    Some(r)
}

} // verus!
