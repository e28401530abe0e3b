//! Value types for the two hash spaces: 20-byte source-format and
//! target-format object ids, the all-zero null sentinel, lowercase hex
//! rendering, and display abbreviation.

use vstd::prelude::*;

use crate::bytes::copy_range;
use crate::digits::{all_hex_digits, is_hex_digit, parse_hex, spec_hex, spec_hex_decode, to_hex};

verus! {

/// The all-zero 20-byte id that stands for "absent".
pub open spec fn spec_null_id() -> Seq<u8> {
    Seq::new(20, |i: int| 0u8)
}

/// First `w` characters of the lowercase hex rendering of a 20-byte id.
pub open spec fn spec_abbrev(id: Seq<u8>, w: int) -> Seq<u8> {
    spec_hex(id).take(w)
}

/// A source-space (DAG store) object id: 20 raw bytes.
pub struct ObjectId {
    pub bytes: Vec<u8>,
}

/// A target-space (changeset store) object id: 20 raw bytes.
pub struct HgObjectId {
    pub bytes: Vec<u8>,
}

/// A target-space id together with a declared display width. The width is
/// used only for truncated rendering; resolution always uses the full id.
pub struct AbbrevHgObjectId {
    pub id: HgObjectId,
    pub hex_len: usize,
}

impl View for ObjectId {
    type V = Seq<u8>;

    open spec fn view(&self) -> Seq<u8> {
        self.bytes@
    }
}

impl View for HgObjectId {
    type V = Seq<u8>;

    open spec fn view(&self) -> Seq<u8> {
        self.bytes@
    }
}

impl ObjectId {
    pub open spec fn wf(&self) -> bool {
        self@.len() == 20
    }

    pub fn null() -> (r: ObjectId)
        ensures
            r.wf(),
            r@ == spec_null_id(),
    {
        let mut bytes: Vec<u8> = Vec::new();
        let mut i: usize = 0;
        while i < 20
            invariant
                i <= 20,
                bytes@ == spec_null_id().take(i as int),
            decreases 20 - i,
        {
            bytes.push(0);
            proof {
                assert(bytes@ =~= spec_null_id().take(i + 1));
            }
            i = i + 1;
        }
        proof {
            assert(spec_null_id().take(20) =~= spec_null_id());
        }
        ObjectId { bytes }
    }

    pub fn duplicate(&self) -> (r: ObjectId)
        ensures
            r@ == self@,
    {
        let r = ObjectId { bytes: copy_range(self.bytes.as_slice(), 0, self.bytes.len()) };
        proof {
            assert(r@ =~= self@);
        }
        r
    }

    pub fn is_null(&self) -> (r: bool)
        requires
            self.wf(),
        ensures
            r == (self@ == spec_null_id()),
    {
        let mut i: usize = 0;
        while i < 20
            invariant
                self.wf(),
                i <= 20,
                forall|j: int| 0 <= j < i ==> self@[j] == 0,
            decreases 20 - i,
        {
            if self.bytes[i] != 0 {
                proof {
                    assert(self@[i as int] != spec_null_id()[i as int]);
                }
                return false;
            }
            i = i + 1;
        }
        proof {
            assert(self@ =~= spec_null_id());
        }
        true
    }

    /// Parse from exactly 40 hex characters.
    pub fn from_hex(s: &[u8]) -> (r: Option<ObjectId>)
        ensures
            match r {
                Some(id) => id.wf() && s@.len() == 40 && all_hex_digits(s@) && id@
                    == spec_hex_decode(s@),
                None => !(s@.len() == 40 && all_hex_digits(s@)),
            },
    {
        if s.len() != 40 {
            return None;
        }
        match parse_hex(s) {
            Some(bytes) => Some(ObjectId { bytes }),
            None => None,
        }
    }

    /// Lowercase hex rendering, 40 characters.
    pub fn to_hex_bytes(&self) -> (r: Vec<u8>)
        ensures
            r@ == spec_hex(self@),
    {
        to_hex(self.bytes.as_slice())
    }

    /// First `width` hex characters of the full rendering.
    pub fn abbreviate(&self, width: usize) -> (r: Vec<u8>)
        requires
            self.wf(),
            width <= 40,
        ensures
            r@ == spec_abbrev(self@, width as int),
            r@.len() == width,
    {
        let mut r = to_hex(self.bytes.as_slice());
        r.truncate(width);
        proof {
            assert(r@ =~= spec_abbrev(self@, width as int));
        }
        r
    }
}

impl HgObjectId {
    pub open spec fn wf(&self) -> bool {
        self@.len() == 20
    }

    pub fn null() -> (r: HgObjectId)
        ensures
            r.wf(),
            r@ == spec_null_id(),
    {
        let o = ObjectId::null();
        HgObjectId { bytes: o.bytes }
    }

    pub fn duplicate(&self) -> (r: HgObjectId)
        ensures
            r@ == self@,
    {
        let r = HgObjectId { bytes: copy_range(self.bytes.as_slice(), 0, self.bytes.len()) };
        proof {
            assert(r@ =~= self@);
        }
        r
    }

    pub fn is_null(&self) -> (r: bool)
        requires
            self.wf(),
        ensures
            r == (self@ == spec_null_id()),
    {
        let o = ObjectId { bytes: copy_range(self.bytes.as_slice(), 0, self.bytes.len()) };
        proof {
            assert(o@ =~= self@);
        }
        o.is_null()
    }

    /// Parse from exactly 40 hex characters.
    pub fn from_hex(s: &[u8]) -> (r: Option<HgObjectId>)
        ensures
            match r {
                Some(id) => id.wf() && s@.len() == 40 && all_hex_digits(s@) && id@
                    == spec_hex_decode(s@),
                None => !(s@.len() == 40 && all_hex_digits(s@)),
            },
    {
        if s.len() != 40 {
            return None;
        }
        match parse_hex(s) {
            Some(bytes) => Some(HgObjectId { bytes }),
            None => None,
        }
    }

    /// Lowercase hex rendering, 40 characters.
    pub fn to_hex_bytes(&self) -> (r: Vec<u8>)
        ensures
            r@ == spec_hex(self@),
    {
        to_hex(self.bytes.as_slice())
    }

    /// First `width` hex characters of the full rendering.
    pub fn abbreviate(&self, width: usize) -> (r: Vec<u8>)
        requires
            self.wf(),
            width <= 40,
        ensures
            r@ == spec_abbrev(self@, width as int),
            r@.len() == width,
    {
        let mut r = to_hex(self.bytes.as_slice());
        r.truncate(width);
        proof {
            assert(r@ =~= spec_abbrev(self@, width as int));
        }
        r
    }
}

impl AbbrevHgObjectId {
    pub open spec fn wf(&self) -> bool {
        self.id.wf() && 3 <= self.hex_len <= 40
    }

    /// Parse from 3 to 40 hex characters. A shorter input denotes the full
    /// id whose hex rendering starts with those characters and continues
    /// with zeros; the declared display width is the input's length.
    pub fn from_hex(s: &[u8]) -> (r: Option<AbbrevHgObjectId>)
        ensures
            match r {
                Some(a) => a.wf() && 3 <= s@.len() <= 40 && all_hex_digits(s@) && a.hex_len
                    == s@.len() && a.id@ == spec_hex_decode(
                    s@ + Seq::new((40 - s@.len()) as nat, |i: int| 48u8),
                ),
                None => !(3 <= s@.len() <= 40 && all_hex_digits(s@)),
            },
    {
        if s.len() < 3 || s.len() > 40 {
            return None;
        }
        let mut padded = copy_range(s, 0, s.len());
        while padded.len() < 40
            invariant
                s@.len() <= padded@.len() <= 40,
                padded@ == s@ + Seq::new((padded@.len() - s@.len()) as nat, |i: int| 48u8),
            decreases 40 - padded@.len(),
        {
            padded.push(48);
            proof {
                assert(padded@ =~= s@ + Seq::new((padded@.len() - s@.len()) as nat, |i: int| 48u8));
            }
        }
        let hex_len = s.len();
        match parse_hex(padded.as_slice()) {
            Some(bytes) => {
                proof {
                    assert(s@ =~= padded@.take(s@.len() as int));
                    assert forall|j: int| 0 <= j < s@.len() implies is_hex_digit(
                        #[trigger] s@[j],
                    ) by {
                        assert(s@[j] == padded@[j]);
                    }
                }
                Some(AbbrevHgObjectId { id: HgObjectId { bytes }, hex_len })
            },
            None => {
                proof {
                    if all_hex_digits(s@) {
                        assert forall|j: int| 0 <= j < padded@.len() implies is_hex_digit(
                            #[trigger] padded@[j],
                        ) by {
                            if j < s@.len() {
                                assert(padded@[j] == s@[j]);
                            } else {
                                assert(padded@[j] == 48);
                            }
                        }
                    }
                }
                None
            },
        }
    }

    /// Rendering truncated to the declared display width.
    pub fn display_bytes(&self) -> (r: Vec<u8>)
        requires
            self.wf(),
        ensures
            r@ == spec_abbrev(self.id@, self.hex_len as int),
    {
        self.id.abbreviate(self.hex_len)
    }
}

/// A narrower abbreviation is a prefix of any wider one, and has exactly
/// the requested number of hex characters.
pub proof fn lemma_abbrev_prefix(id: Seq<u8>, w1: int, w2: int)
    requires
        id.len() == 20,
        0 <= w1 <= w2 <= 40,
    ensures
        spec_abbrev(id, w1) == spec_abbrev(id, w2).take(w1),
        spec_abbrev(id, w1).len() == w1,
        all_hex_digits(spec_abbrev(id, w1)),
{
    assert(spec_abbrev(id, w1) =~= spec_abbrev(id, w2).take(w1));
    assert forall|j: int| 0 <= j < w1 implies is_hex_digit(#[trigger] spec_abbrev(id, w1)[j]) by {
        let b = id[j / 2] as int;
        assert(0 <= b / 16 < 16);
        assert(0 <= b % 16 < 16);
    }
}

/// The null id renders as zeros at every abbreviation width.
pub proof fn lemma_null_abbrev_zeros(w: int)
    requires
        0 <= w <= 40,
    ensures
        spec_abbrev(spec_null_id(), w) == Seq::new(w as nat, |i: int| 48u8),
{
    assert(spec_abbrev(spec_null_id(), w) =~= Seq::new(w as nat, |i: int| 48u8));
}

} // verus!
