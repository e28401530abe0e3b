//! Bidirectional conversion between the source store's single-line
//! author/committer encoding (`name <mail> timestamp +HHMM`) and the target
//! format's three fields: name, decimal timestamp, and UTC offset given as
//! decimal seconds west of UTC.

use vstd::prelude::*;

use crate::bytes::{copy_range, push_all, rfind_byte};
use crate::digits::{all_digits, is_digit, render_decimal, spec_dec};

verus! {

/// Index of the last occurrence of `b` in `s`, if any.
pub open spec fn spec_rfind(s: Seq<u8>, b: u8) -> Option<int>
    decreases s.len(),
{
    if s.len() == 0 {
        None
    } else if s.last() == b {
        Some(s.len() - 1)
    } else {
        spec_rfind(s.drop_last(), b)
    }
}

pub proof fn lemma_rfind_some(s: Seq<u8>, b: u8, i: int)
    requires
        0 <= i < s.len(),
        s[i] == b,
        forall|j: int| i < j < s.len() ==> s[j] != b,
    ensures
        spec_rfind(s, b) == Some(i),
    decreases s.len(),
{
    if i == s.len() - 1 {
    } else {
        assert(s.drop_last()[i] == b);
        lemma_rfind_some(s.drop_last(), b, i);
    }
}

pub proof fn lemma_rfind_none(s: Seq<u8>, b: u8)
    requires
        forall|j: int| 0 <= j < s.len() ==> s[j] != b,
    ensures
        spec_rfind(s, b) == None::<int>,
    decreases s.len(),
{
    if s.len() > 0 {
        lemma_rfind_none(s.drop_last(), b);
    }
}

/// Split a source author line at its last two spaces into
/// (name, timestamp field, offset field).
pub open spec fn spec_split_author(line: Seq<u8>) -> Option<(Seq<u8>, Seq<u8>, Seq<u8>)> {
    match spec_rfind(line, 32) {
        None => None,
        Some(j) => match spec_rfind(line.take(j), 32) {
            None => None,
            Some(i) => Some((line.take(i), line.subrange(i + 1, j), line.skip(j + 1))),
        },
    }
}

/// A source offset field: a sign and exactly four digits (hours, minutes).
pub open spec fn spec_offset_valid(t: Seq<u8>) -> bool {
    t.len() == 5 && (t[0] == 43 || t[0] == 45) && is_digit(t[1]) && is_digit(t[2]) && is_digit(t[3])
        && is_digit(t[4])
}

/// Seconds west of UTC denoted by a source offset field: the source
/// convention counts east as positive, the target's counts west.
pub open spec fn spec_offset_seconds(t: Seq<u8>) -> int {
    let v = ((t[1] - 48) * 10 + (t[2] - 48)) * 3600 + ((t[3] - 48) * 10 + (t[4] - 48)) * 60;
    if t[0] == 43 {
        -v
    } else {
        v as int
    }
}

/// Decimal rendering of a signed offset.
pub open spec fn spec_render_offset(secs: int) -> Seq<u8> {
    if secs < 0 {
        seq![45u8] + spec_dec((-secs) as nat)
    } else {
        spec_dec(secs as nat)
    }
}

/// Whether a source author line is well formed: two space-separated
/// trailing fields, an all-digit timestamp and a sign-and-four-digit offset.
pub open spec fn spec_author_line_valid(line: Seq<u8>) -> bool {
    match spec_split_author(line) {
        None => false,
        Some((name, ts, off)) => ts.len() > 0 && all_digits(ts) && spec_offset_valid(off),
    }
}

/// The three target-format fields derived from a source author line.
pub open spec fn spec_author_name(line: Seq<u8>) -> Seq<u8> {
    spec_split_author(line)->Some_0.0
}

pub open spec fn spec_author_timestamp(line: Seq<u8>) -> Seq<u8> {
    spec_split_author(line)->Some_0.1
}

pub open spec fn spec_author_offset(line: Seq<u8>) -> Seq<u8> {
    spec_render_offset(spec_offset_seconds(spec_split_author(line)->Some_0.2))
}

/// A source line re-encoded in the target's convention:
/// `name timestamp seconds-west`.
pub open spec fn spec_to_target(line: Seq<u8>) -> Seq<u8> {
    spec_author_name(line) + seq![32u8] + spec_author_timestamp(line) + seq![32u8]
        + spec_author_offset(line)
}

/// The three target-format authorship fields.
pub struct AuthorParts {
    pub name: Vec<u8>,
    pub timestamp: Vec<u8>,
    pub utcoffset: Vec<u8>,
}

/// Split a source line into the three target-format fields.
#[verifier::loop_isolation(false)]
pub fn from_source_line(line: &[u8]) -> (r: Option<AuthorParts>)
    ensures
        match r {
            Some(p) => spec_author_line_valid(line@) && p.name@ == spec_author_name(line@)
                && p.timestamp@ == spec_author_timestamp(line@) && p.utcoffset@
                == spec_author_offset(line@),
            None => !spec_author_line_valid(line@),
        },
{
    let j = match rfind_byte(line, 32) {
        Some(j) => j,
        None => {
            proof {
                lemma_rfind_none(line@, 32);
            }
            return None;
        },
    };
    proof {
        lemma_rfind_some(line@, 32, j as int);
    }
    let head = copy_range(line, 0, j);
    proof {
        assert(head@ =~= line@.take(j as int));
    }
    let i = match rfind_byte(head.as_slice(), 32) {
        Some(i) => i,
        None => {
            proof {
                lemma_rfind_none(head@, 32);
            }
            return None;
        },
    };
    proof {
        lemma_rfind_some(head@, 32, i as int);
    }
    let n = line.len();
    let name = copy_range(line, 0, i);
    let ts = copy_range(line, i + 1, j);
    let off = copy_range(line, j + 1, n);
    proof {
        assert(name@ =~= line@.take(i as int));
        assert(ts@ =~= line@.subrange(i + 1, j as int));
        assert(off@ =~= line@.skip(j + 1));
    }
    if ts.len() == 0 {
        return None;
    }
    let mut k: usize = 0;
    while k < ts.len()
        invariant
            k <= ts@.len(),
            forall|m: int| 0 <= m < k ==> is_digit(#[trigger] ts@[m]),
        decreases ts@.len() - k,
    {
        if ts[k] < 48 || ts[k] > 57 {
            proof {
                assert(!is_digit(ts@[k as int]));
                assert(!all_digits(ts@));
            }
            return None;
        }
        k = k + 1;
    }
    if off.len() != 5 {
        return None;
    }
    let sign = off[0];
    if sign != 43 && sign != 45 {
        return None;
    }
    let d1 = off[1];
    let d2 = off[2];
    let d3 = off[3];
    let d4 = off[4];
    if d1 < 48 || d1 > 57 || d2 < 48 || d2 > 57 || d3 < 48 || d3 > 57 || d4 < 48 || d4 > 57 {
        return None;
    }
    let hours = (d1 - 48) as u64 * 10 + (d2 - 48) as u64;
    let minutes = (d3 - 48) as u64 * 10 + (d4 - 48) as u64;
    let secs = hours * 3600 + minutes * 60;
    let utcoffset = if sign == 43 && secs > 0 {
        let mut v: Vec<u8> = Vec::new();
        v.push(45);
        let dec = render_decimal(secs);
        push_all(&mut v, dec.as_slice());
        proof {
            assert(v@ =~= seq![45u8] + spec_dec(secs as nat));
        }
        v
    } else {
        render_decimal(secs)
    };
    proof {
        assert(utcoffset@ == spec_render_offset(spec_offset_seconds(off@)));
    }
    Some(AuthorParts { name, timestamp: ts, utcoffset })
}

/// Re-encode a source committer line in the target's convention.
pub fn to_target_bytes(line: &[u8]) -> (r: Option<Vec<u8>>)
    ensures
        match r {
            Some(v) => spec_author_line_valid(line@) && v@ == spec_to_target(line@),
            None => !spec_author_line_valid(line@),
        },
{
    match from_source_line(line) {
        Some(parts) => {
            let mut v: Vec<u8> = Vec::new();
            push_all(&mut v, parts.name.as_slice());
            v.push(32);
            push_all(&mut v, parts.timestamp.as_slice());
            v.push(32);
            push_all(&mut v, parts.utcoffset.as_slice());
            proof {
                assert(v@ =~= spec_to_target(line@));
            }
            Some(v)
        },
        None => None,
    }
}

} // verus!
