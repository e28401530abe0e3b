//! The compact metadata side-record attached to each translated revision:
//! one `key value` line per field. Recognized keys are `changeset`
//! (required), `manifest`, `author`, `extra`, `files` and `patch`; any
//! other key, any malformed line and any malformed hash value is a hard
//! `CorruptIndex` failure, never ignored. A repeated key keeps its last
//! occurrence.

use vstd::prelude::*;

use crate::bytes::{bytes_equal, spec_split, spec_split_first, split_all, split_first};
use crate::digits::{all_hex_digits, spec_hex_decode};
use crate::errors::DumpError;
use crate::hashes::{spec_null_id, HgObjectId};

verus! {

pub open spec fn key_changeset() -> Seq<u8> {
    seq![99u8, 104u8, 97u8, 110u8, 103u8, 101u8, 115u8, 101u8, 116u8]
}

pub open spec fn key_manifest() -> Seq<u8> {
    seq![109u8, 97u8, 110u8, 105u8, 102u8, 101u8, 115u8, 116u8]
}

pub open spec fn key_author() -> Seq<u8> {
    seq![97u8, 117u8, 116u8, 104u8, 111u8, 114u8]
}

pub open spec fn key_extra() -> Seq<u8> {
    seq![101u8, 120u8, 116u8, 114u8, 97u8]
}

pub open spec fn key_files() -> Seq<u8> {
    seq![102u8, 105u8, 108u8, 101u8, 115u8]
}

pub open spec fn key_patch() -> Seq<u8> {
    seq![112u8, 97u8, 116u8, 99u8, 104u8]
}

/// A full 20-byte hash written as 40 hex characters.
pub open spec fn valid_hash_hex(v: Seq<u8>) -> bool {
    v.len() == 40 && all_hex_digits(v)
}

/// Parser state: the fields seen so far; `changeset` is owed by the end.
pub struct MetaAcc {
    pub changeset: Option<Seq<u8>>,
    pub manifest: Seq<u8>,
    pub author: Option<Seq<u8>>,
    pub extra: Option<Seq<u8>>,
    pub files: Option<Seq<u8>>,
    pub patch: Option<Seq<u8>>,
}

pub open spec fn spec_init_acc() -> MetaAcc {
    MetaAcc {
        changeset: None,
        manifest: spec_null_id(),
        author: None,
        extra: None,
        files: None,
        patch: None,
    }
}

/// Effect of one `key value` line on the parser state.
pub open spec fn spec_meta_step(acc: MetaAcc, line: Seq<u8>) -> Option<MetaAcc> {
    match spec_split_first(line, 32) {
        None => None,
        Some((key, value)) => if key == key_changeset() {
            if valid_hash_hex(value) {
                Some(MetaAcc { changeset: Some(spec_hex_decode(value)), ..acc })
            } else {
                None
            }
        } else if key == key_manifest() {
            if valid_hash_hex(value) {
                Some(MetaAcc { manifest: spec_hex_decode(value), ..acc })
            } else {
                None
            }
        } else if key == key_author() {
            Some(MetaAcc { author: Some(value), ..acc })
        } else if key == key_extra() {
            Some(MetaAcc { extra: Some(value), ..acc })
        } else if key == key_files() {
            Some(MetaAcc { files: Some(value), ..acc })
        } else if key == key_patch() {
            Some(MetaAcc { patch: Some(value), ..acc })
        } else {
            None
        },
    }
}

pub open spec fn spec_meta_lines(lines: Seq<Seq<u8>>, acc: MetaAcc) -> Option<MetaAcc>
    decreases lines.len(),
{
    if lines.len() == 0 {
        Some(acc)
    } else {
        match spec_meta_step(acc, lines[0]) {
            None => None,
            Some(a) => spec_meta_lines(lines.drop_first(), a),
        }
    }
}

/// The parsed record: `changeset` present, every other field as stored.
pub struct MetaView {
    pub changeset: Seq<u8>,
    pub manifest: Seq<u8>,
    pub author: Option<Seq<u8>>,
    pub extra: Option<Seq<u8>>,
    pub files: Option<Seq<u8>>,
    pub patch: Option<Seq<u8>>,
}

/// Parse a whole metadata blob: newline-separated `key value` lines, the
/// `changeset` field required.
pub open spec fn spec_parse_metadata(blob: Seq<u8>) -> Option<MetaView> {
    match spec_meta_lines(spec_split(blob, 10), spec_init_acc()) {
        None => None,
        Some(acc) => match acc.changeset {
            None => None,
            Some(cs) => Some(
                MetaView {
                    changeset: cs,
                    manifest: acc.manifest,
                    author: acc.author,
                    extra: acc.extra,
                    files: acc.files,
                    patch: acc.patch,
                },
            ),
        },
    }
}

pub open spec fn opt_view(o: Option<Vec<u8>>) -> Option<Seq<u8>> {
    match o {
        None => None,
        Some(v) => Some(v@),
    }
}

pub open spec fn opt_id_view(o: Option<HgObjectId>) -> Option<Seq<u8>> {
    match o {
        None => None,
        Some(h) => Some(h@),
    }
}

pub open spec fn opt_id_wf(o: Option<HgObjectId>) -> bool {
    match o {
        None => true,
        Some(h) => h.wf(),
    }
}

/// The metadata side-record of one translated changeset.
pub struct MetadataRecord {
    pub changeset: HgObjectId,
    pub manifest: HgObjectId,
    pub author: Option<Vec<u8>>,
    pub extra: Option<Vec<u8>>,
    pub files: Option<Vec<u8>>,
    pub patch: Option<Vec<u8>>,
}

impl MetadataRecord {
    pub open spec fn wf(&self) -> bool {
        self.changeset.wf() && self.manifest.wf()
    }

    pub open spec fn view_rec(&self) -> MetaView {
        MetaView {
            changeset: self.changeset@,
            manifest: self.manifest@,
            author: opt_view(self.author),
            extra: opt_view(self.extra),
            files: opt_view(self.files),
            patch: opt_view(self.patch),
        }
    }
}

fn key_changeset_vec() -> (r: Vec<u8>)
    ensures
        r@ == key_changeset(),
{
    let r: Vec<u8> = vec![99u8, 104u8, 97u8, 110u8, 103u8, 101u8, 115u8, 101u8, 116u8];
    proof {
        assert(r@ =~= key_changeset());
    }
    r
}

fn key_manifest_vec() -> (r: Vec<u8>)
    ensures
        r@ == key_manifest(),
{
    let r: Vec<u8> = vec![109u8, 97u8, 110u8, 105u8, 102u8, 101u8, 115u8, 116u8];
    proof {
        assert(r@ =~= key_manifest());
    }
    r
}

fn key_author_vec() -> (r: Vec<u8>)
    ensures
        r@ == key_author(),
{
    let r: Vec<u8> = vec![97u8, 117u8, 116u8, 104u8, 111u8, 114u8];
    proof {
        assert(r@ =~= key_author());
    }
    r
}

fn key_extra_vec() -> (r: Vec<u8>)
    ensures
        r@ == key_extra(),
{
    let r: Vec<u8> = vec![101u8, 120u8, 116u8, 114u8, 97u8];
    proof {
        assert(r@ =~= key_extra());
    }
    r
}

fn key_files_vec() -> (r: Vec<u8>)
    ensures
        r@ == key_files(),
{
    let r: Vec<u8> = vec![102u8, 105u8, 108u8, 101u8, 115u8];
    proof {
        assert(r@ =~= key_files());
    }
    r
}

fn key_patch_vec() -> (r: Vec<u8>)
    ensures
        r@ == key_patch(),
{
    let r: Vec<u8> = vec![112u8, 97u8, 116u8, 99u8, 104u8];
    proof {
        assert(r@ =~= key_patch());
    }
    r
}

/// Parse the metadata blob of a translated commit.
#[verifier::loop_isolation(false)]
pub fn parse_metadata(blob: &[u8]) -> (r: Result<MetadataRecord, DumpError>)
    ensures
        match r {
            Ok(rec) => rec.wf() && spec_parse_metadata(blob@) == Some(rec.view_rec()),
            Err(e) => e == DumpError::CorruptIndex && spec_parse_metadata(blob@) is None,
        },
{
    let lines = split_all(blob, 10);
    let ghost lv = lines.deep_view();
    let mut changeset: Option<HgObjectId> = None;
    let mut manifest: HgObjectId = HgObjectId::null();
    let mut author: Option<Vec<u8>> = None;
    let mut extra: Option<Vec<u8>> = None;
    let mut files: Option<Vec<u8>> = None;
    let mut patch: Option<Vec<u8>> = None;
    let ghost acc0 = spec_init_acc();
    let mut i: usize = 0;
    proof {
        assert(lv.skip(0) =~= lv);
    }
    while i < lines.len()
        invariant
            i <= lines@.len(),
            lines@.len() == lv.len(),
            forall|k: int| 0 <= k < lv.len() ==> lv[k] == lines@[k]@,
            opt_id_wf(changeset),
            manifest.wf(),
            spec_meta_lines(lv, acc0) == spec_meta_lines(
                lv.skip(i as int),
                MetaAcc {
                    changeset: opt_id_view(changeset),
                    manifest: manifest@,
                    author: opt_view(author),
                    extra: opt_view(extra),
                    files: opt_view(files),
                    patch: opt_view(patch),
                },
            ),
        decreases lines@.len() - i,
    {
        let ghost acc_in = MetaAcc {
            changeset: opt_id_view(changeset),
            manifest: manifest@,
            author: opt_view(author),
            extra: opt_view(extra),
            files: opt_view(files),
            patch: opt_view(patch),
        };
        let line = &lines[i];
        proof {
            assert(lv.skip(i as int)[0] == line@);
            assert(lv.skip(i as int).drop_first() =~= lv.skip(i + 1));
        }
        let (key, value) = match split_first(line.as_slice(), 32) {
            Some(p) => p,
            None => {
                return Err(DumpError::CorruptIndex);
            },
        };
        if bytes_equal(key.as_slice(), key_changeset_vec().as_slice()) {
            match HgObjectId::from_hex(value.as_slice()) {
                Some(id) => {
                    changeset = Some(id);
                },
                None => {
                    return Err(DumpError::CorruptIndex);
                },
            }
        } else if bytes_equal(key.as_slice(), key_manifest_vec().as_slice()) {
            match HgObjectId::from_hex(value.as_slice()) {
                Some(id) => {
                    manifest = id;
                },
                None => {
                    return Err(DumpError::CorruptIndex);
                },
            }
        } else if bytes_equal(key.as_slice(), key_author_vec().as_slice()) {
            author = Some(value);
        } else if bytes_equal(key.as_slice(), key_extra_vec().as_slice()) {
            extra = Some(value);
        } else if bytes_equal(key.as_slice(), key_files_vec().as_slice()) {
            files = Some(value);
        } else if bytes_equal(key.as_slice(), key_patch_vec().as_slice()) {
            patch = Some(value);
        } else {
            return Err(DumpError::CorruptIndex);
        }
        proof {
            let acc_out = MetaAcc {
                changeset: opt_id_view(changeset),
                manifest: manifest@,
                author: opt_view(author),
                extra: opt_view(extra),
                files: opt_view(files),
                patch: opt_view(patch),
            };
            assert(spec_meta_step(acc_in, line@) == Some(acc_out));
        }
        i = i + 1;
    }
    proof {
        assert(lv.skip(lv.len() as int) =~= Seq::<Seq<u8>>::empty());
    }
    match changeset {
        Some(cs) => Ok(
            MetadataRecord { changeset: cs, manifest, author, extra, files, patch },
        ),
        None => Err(DumpError::CorruptIndex),
    }
}

} // verus!
