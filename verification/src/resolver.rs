//! Serving manifest and file-content requests over the index and the
//! object store, including the file metadata-header convention, and the
//! dispatch over the three revision kinds.

use vstd::prelude::*;

use crate::bytes::push_all;
use crate::changeset::{reconstruct_changeset, spec_reconstruct};
use crate::errors::DumpError;
use crate::hashes::{AbbrevHgObjectId, HgObjectId};
use crate::store::{spec_note_lookup, ObjKind, Store};

verus! {

/// The kind of revision a dump request asks for.
#[derive(Clone, Copy, PartialEq, Eq, Structural, Debug)]
pub enum HgObjectType {
    Changeset,
    Manifest,
    File,
}

/// The two-byte marker that delimits a file's metadata header block.
pub open spec fn spec_file_marker() -> Seq<u8> {
    seq![1u8, 10u8]
}

/// The bytes served for a manifest request: the externally generated
/// manifest of the source object the revision maps to.
pub open spec fn spec_dump_manifest(s: Store, rev: Seq<u8>) -> Result<Seq<u8>, DumpError> {
    match spec_note_lookup(s.reverse_notes.entries@, rev) {
        None => Err(DumpError::UnknownRevision),
        Some(oid) => match spec_note_lookup(s.manifests@, oid) {
            None => Err(DumpError::CorruptIndex),
            Some(b) => Ok(b),
        },
    }
}

/// The bytes served for a file request: with a file-metadata note, the
/// marker, the note's blob, the marker again, then the content; without
/// one, exactly the content.
pub open spec fn spec_dump_file(s: Store, rev: Seq<u8>) -> Result<Seq<u8>, DumpError> {
    match spec_note_lookup(s.reverse_notes.entries@, rev) {
        None => Err(DumpError::UnknownRevision),
        Some(oid) => match s.lookup_object(oid) {
            None => Err(DumpError::UnknownRevision),
            Some((kind, content)) => if kind != ObjKind::Blob {
                Err(DumpError::CorruptIndex)
            } else {
                match spec_note_lookup(s.file_notes.entries@, rev) {
                    None => Ok(content),
                    Some(meta) => Ok(
                        spec_file_marker() + meta + spec_file_marker() + content,
                    ),
                }
            },
        },
    }
}

/// Serve a manifest request.
pub fn dump_manifest(store: &mut Store, rev: &HgObjectId) -> (r: Result<Vec<u8>, DumpError>)
    ensures
        final(store).reverse_notes.entries == old(store).reverse_notes.entries,
        final(store).metadata_notes == old(store).metadata_notes,
        final(store).file_notes == old(store).file_notes,
        final(store).objects == old(store).objects,
        final(store).manifests == old(store).manifests,
        final(store).committish == old(store).committish,
        match r {
            Ok(v) => spec_dump_manifest(*old(store), rev@) == Result::<Seq<u8>, DumpError>::Ok(v@),
            Err(e) => spec_dump_manifest(*old(store), rev@) == Result::<Seq<u8>, DumpError>::Err(e),
        },
{
    store.reverse_notes.ensure();
    let oid = match store.reverse_notes.get_note(rev.bytes.as_slice()) {
        Some(v) => v,
        None => {
            return Err(DumpError::UnknownRevision);
        },
    };
    match store.generate_manifest(oid.as_slice()) {
        Some(b) => Ok(b),
        None => Err(DumpError::CorruptIndex),
    }
}

/// Serve a file-content request, reproducing the delimited metadata
/// header convention: a file revision without a file-metadata note is
/// served as exactly its blob content, with no marker bytes.
pub fn dump_file(store: &mut Store, rev: &HgObjectId) -> (r: Result<Vec<u8>, DumpError>)
    ensures
        final(store).reverse_notes.entries == old(store).reverse_notes.entries,
        final(store).metadata_notes == old(store).metadata_notes,
        final(store).file_notes.entries == old(store).file_notes.entries,
        final(store).objects == old(store).objects,
        final(store).manifests == old(store).manifests,
        final(store).committish == old(store).committish,
        match r {
            Ok(v) => spec_dump_file(*old(store), rev@) == Result::<Seq<u8>, DumpError>::Ok(v@),
            Err(e) => spec_dump_file(*old(store), rev@) == Result::<Seq<u8>, DumpError>::Err(e),
        },
{
    store.reverse_notes.ensure();
    store.file_notes.ensure();
    let oid = match store.reverse_notes.get_note(rev.bytes.as_slice()) {
        Some(v) => v,
        None => {
            return Err(DumpError::UnknownRevision);
        },
    };
    let obj = match store.read_object(oid.as_slice()) {
        Some(o) => o,
        None => {
            return Err(DumpError::UnknownRevision);
        },
    };
    match obj.kind {
        ObjKind::Blob => {},
        ObjKind::Commit => {
            return Err(DumpError::CorruptIndex);
        },
    }
    match store.file_notes.get_note(rev.bytes.as_slice()) {
        None => Ok(obj.data),
        Some(meta) => {
            let mut out: Vec<u8> = Vec::new();
            out.push(1);
            out.push(10);
            push_all(&mut out, meta.as_slice());
            out.push(1);
            out.push(10);
            push_all(&mut out, obj.data.as_slice());
            proof {
                assert(out@ =~= spec_file_marker() + meta@ + spec_file_marker() + obj.data@);
            }
            Ok(out)
        },
    }
}

/// Serve a dump request for one revision of the given kind, returning
/// the exact byte stream to emit.
pub fn dump(store: &mut Store, kind: HgObjectType, rev: &AbbrevHgObjectId) -> (r: Result<
    Vec<u8>,
    DumpError,
>)
    ensures
        final(store).reverse_notes.entries == old(store).reverse_notes.entries,
        final(store).metadata_notes.entries == old(store).metadata_notes.entries,
        final(store).file_notes.entries == old(store).file_notes.entries,
        final(store).objects == old(store).objects,
        final(store).manifests == old(store).manifests,
        final(store).committish == old(store).committish,
        ({
            let expected = match kind {
                HgObjectType::Changeset => spec_reconstruct(*old(store), rev.id@),
                HgObjectType::Manifest => spec_dump_manifest(*old(store), rev.id@),
                HgObjectType::File => spec_dump_file(*old(store), rev.id@),
            };
            match r {
                Ok(v) => expected == Result::<Seq<u8>, DumpError>::Ok(v@),
                Err(e) => expected == Result::<Seq<u8>, DumpError>::Err(e),
            }
        }),
{
    match kind {
        HgObjectType::Changeset => reconstruct_changeset(store, &rev.id),
        HgObjectType::Manifest => dump_manifest(store, &rev.id),
        HgObjectType::File => dump_file(store, &rev.id),
    }
}

} // verus!
