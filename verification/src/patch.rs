//! The optional patch attached to a metadata record: an ordered list of
//! `(start, end, percent-encoded-replacement)` edits over the assembled
//! baseline bytes. Edits are applied in list order with a cursor and must
//! not overlap; impossible offsets are a hard `MalformedPatch` failure.

use vstd::prelude::*;

use crate::bytes::{spec_split, spec_split_first, split_all, split_first};
use crate::digits::{all_digits, is_hex_digit, hex_digit_val, parse_decimal, spec_dec_val};
use crate::errors::DumpError;

verus! {

/// Percent-decoding: any `%` followed by two hex digits becomes one byte;
/// anything else passes through unchanged.
pub open spec fn spec_percent_decode(s: Seq<u8>) -> Seq<u8>
    decreases s.len(),
{
    if s.len() == 0 {
        Seq::<u8>::empty()
    } else if s[0] == 37 && s.len() >= 3 && is_hex_digit(s[1]) && is_hex_digit(s[2]) {
        seq![(hex_digit_val(s[1]) * 16 + hex_digit_val(s[2])) as u8].add(
            spec_percent_decode(s.skip(3)),
        )
    } else {
        seq![s[0]].add(spec_percent_decode(s.drop_first()))
    }
}

/// Relies on percent_encoding::percent_decode: any `%` followed by two hex
/// digits is decoded to the byte they denote; all other bytes pass through.
#[verifier::external_body]
fn percent_decode_bytes(data: &[u8]) -> (r: Vec<u8>)
    ensures
        r@ == spec_percent_decode(data@),
{
    percent_encoding::percent_decode(data).collect()
}

/// One edit, with its replacement already percent-decoded.
#[derive(Debug, PartialEq, Eq)]
pub struct PatchEdit {
    pub start: usize,
    pub end: usize,
    pub data: Vec<u8>,
}

/// Spec-level edit.
pub struct EditView {
    pub start: int,
    pub end: int,
    pub data: Seq<u8>,
}

pub open spec fn edits_deep(s: Seq<PatchEdit>) -> Seq<EditView> {
    Seq::new(s.len(), |i: int| EditView { start: s[i].start as int, end: s[i].end as int, data: s[i].data@ })
}

/// Parse one `start,end,data` field.
pub open spec fn spec_parse_edit(part: Seq<u8>) -> Option<EditView> {
    match spec_split_first(part, 44) {
        None => None,
        Some((s1, rest)) => match spec_split_first(rest, 44) {
            None => None,
            Some((s2, data)) => if s1.len() > 0 && all_digits(s1) && spec_dec_val(s1) <= u64::MAX
                && spec_dec_val(s1) <= usize::MAX && s2.len() > 0 && all_digits(s2) && spec_dec_val(
                s2,
            ) <= u64::MAX && spec_dec_val(s2) <= usize::MAX {
                Some(
                    EditView {
                        start: spec_dec_val(s1) as int,
                        end: spec_dec_val(s2) as int,
                        data: spec_percent_decode(data),
                    },
                )
            } else {
                None
            },
        },
    }
}

pub open spec fn spec_parse_edits(parts: Seq<Seq<u8>>) -> Option<Seq<EditView>>
    decreases parts.len(),
{
    if parts.len() == 0 {
        Some(Seq::empty())
    } else {
        match spec_parse_edit(parts[0]) {
            None => None,
            Some(e) => match spec_parse_edits(parts.drop_first()) {
                None => None,
                Some(rest) => Some(seq![e].add(rest)),
            },
        }
    }
}

/// Parse a whole patch blob: null-separated edit fields.
pub open spec fn spec_parse_patch(blob: Seq<u8>) -> Option<Seq<EditView>> {
    spec_parse_edits(spec_split(blob, 0))
}

/// Whether an edit list is applicable to a baseline of length `len`,
/// starting with the copy cursor at `cursor`: offsets in bounds, in order,
/// and non-overlapping.
pub open spec fn spec_edits_ok(edits: Seq<EditView>, cursor: int, len: int) -> bool
    decreases edits.len(),
{
    if edits.len() == 0 {
        true
    } else {
        let e = edits[0];
        cursor <= e.start <= e.end <= len && spec_edits_ok(edits.drop_first(), e.end, len)
    }
}

/// The patched bytes: for each edit, the baseline from the cursor up to
/// its start, then its replacement, the cursor moving to its end; after
/// the last edit the rest of the baseline.
pub open spec fn spec_apply_edits(base: Seq<u8>, edits: Seq<EditView>, cursor: int) -> Seq<u8>
    decreases edits.len(),
{
    if edits.len() == 0 {
        base.skip(cursor)
    } else {
        let e = edits[0];
        base.subrange(cursor, e.start).add(e.data).add(
            spec_apply_edits(base, edits.drop_first(), e.end),
        )
    }
}

/// Parse the patch blob of a metadata record.
#[verifier::loop_isolation(false)]
pub fn parse_patch(blob: &[u8]) -> (r: Result<Vec<PatchEdit>, DumpError>)
    ensures
        match r {
            Ok(v) => spec_parse_patch(blob@) == Some(edits_deep(v@)),
            Err(e) => e == DumpError::CorruptIndex && spec_parse_patch(blob@) is None,
        },
{
    let parts = split_all(blob, 0);
    let ghost pv = parts.deep_view();
    let mut edits: Vec<PatchEdit> = Vec::new();
    let mut i: usize = 0;
    proof {
        assert(pv.skip(0) =~= pv);
    }
    while i < parts.len()
        invariant
            i <= parts@.len(),
            parts@.len() == pv.len(),
            forall|k: int| 0 <= k < pv.len() ==> pv[k] == parts@[k]@,
            match spec_parse_edits(pv.skip(i as int)) {
                None => spec_parse_edits(pv) is None,
                Some(rest) => spec_parse_edits(pv) == Some(edits_deep(edits@).add(rest)),
            },
        decreases parts@.len() - i,
    {
        let ghost done = edits_deep(edits@);
        let part = &parts[i];
        proof {
            assert(pv.skip(i as int)[0] == part@);
            assert(pv.skip(i as int).drop_first() =~= pv.skip(i + 1));
        }
        let (s1, rest) = match split_first(part.as_slice(), 44) {
            Some(p) => p,
            None => {
                return Err(DumpError::CorruptIndex);
            },
        };
        let (s2, data) = match split_first(rest.as_slice(), 44) {
            Some(p) => p,
            None => {
                return Err(DumpError::CorruptIndex);
            },
        };
        let start64 = match parse_decimal(s1.as_slice()) {
            Some(v) => v,
            None => {
                return Err(DumpError::CorruptIndex);
            },
        };
        let end64 = match parse_decimal(s2.as_slice()) {
            Some(v) => v,
            None => {
                return Err(DumpError::CorruptIndex);
            },
        };
        if start64 > usize::MAX as u64 || end64 > usize::MAX as u64 {
            return Err(DumpError::CorruptIndex);
        }
        let e = PatchEdit { start: start64 as usize, end: end64 as usize, data: percent_decode_bytes(data.as_slice()) };
        let ghost ev = EditView { start: e.start as int, end: e.end as int, data: e.data@ };
        proof {
            assert(spec_parse_edit(part@) == Some(ev));
        }
        edits.push(e);
        proof {
            assert(edits_deep(edits@) =~~= done.push(ev));
            match spec_parse_edits(pv.skip(i + 1)) {
                None => {},
                Some(rest) => {
                    assert(spec_parse_edits(pv.skip(i as int)) == Some(seq![ev].add(rest)));
                    assert(done.add(seq![ev].add(rest)) =~~= edits_deep(edits@).add(rest));
                },
            }
        }
        i = i + 1;
    }
    proof {
        assert(pv.skip(pv.len() as int) =~= Seq::<Seq<u8>>::empty());
        assert(edits_deep(edits@).add(Seq::empty()) =~~= edits_deep(edits@));
    }
    Ok(edits)
}

/// Apply an edit list to the baseline.
#[verifier::loop_isolation(false)]
pub fn apply_patch(base: &[u8], edits: &Vec<PatchEdit>) -> (r: Result<Vec<u8>, DumpError>)
    ensures
        match r {
            Ok(v) => spec_edits_ok(edits_deep(edits@), 0, base@.len() as int) && v@
                == spec_apply_edits(base@, edits_deep(edits@), 0),
            Err(e) => e == DumpError::MalformedPatch && !spec_edits_ok(
                edits_deep(edits@),
                0,
                base@.len() as int,
            ),
        },
{
    let ghost ed = edits_deep(edits@);
    let mut out: Vec<u8> = Vec::new();
    let mut cursor: usize = 0;
    let mut i: usize = 0;
    proof {
        assert(ed.skip(0) =~= ed);
    }
    while i < edits.len()
        invariant
            i <= edits@.len(),
            ed.len() == edits@.len(),
            cursor <= base@.len(),
            spec_edits_ok(ed, 0, base@.len() as int) == spec_edits_ok(
                ed.skip(i as int),
                cursor as int,
                base@.len() as int,
            ),
            spec_edits_ok(ed.skip(i as int), cursor as int, base@.len() as int) ==> out@
                + spec_apply_edits(base@, ed.skip(i as int), cursor as int) == spec_apply_edits(
                base@,
                ed,
                0,
            ),
        decreases edits@.len() - i,
    {
        let e = &edits[i];
        proof {
            assert(ed.skip(i as int)[0] == EditView {
                start: e.start as int,
                end: e.end as int,
                data: e.data@,
            });
            assert(ed.skip(i as int).drop_first() =~= ed.skip(i + 1));
        }
        if e.start < cursor || e.end < e.start || e.end > base.len() {
            return Err(DumpError::MalformedPatch);
        }
        crate::bytes::push_all(&mut out, &base[cursor..e.start]);
        crate::bytes::push_all(&mut out, e.data.as_slice());
        cursor = e.end;
        i = i + 1;
    }
    proof {
        assert(ed.skip(ed.len() as int) =~= Seq::<EditView>::empty());
    }
    crate::bytes::push_all(&mut out, &base[cursor..base.len()]);
    proof {
        assert(base@.subrange(cursor as int, base@.len() as int) =~= base@.skip(cursor as int));
    }
    Ok(out)
}

} // verus!
