//! The bidirectional object-identity index: target hash to source object
//! id through the generated reverse-index tree, source id to target hash
//! through each commit's metadata record. Missing mappings are not
//! errors: resolution yields the null hash, so batch lookups always
//! produce one output line per input, in input order.

use vstd::prelude::*;

use crate::changeset::spec_target_of_source;
use crate::digits::{all_digits, parse_decimal, spec_dec_val};
use crate::hashes::{spec_abbrev, spec_null_id, AbbrevHgObjectId, HgObjectId, ObjectId};
use crate::metadata::parse_metadata;
use crate::store::{spec_note_lookup, NoteEntry, Store};

verus! {

/// All values of a reverse-index tree are full 20-byte ids. The format of
/// the trees' keys and values is fixed by the external store and is an
/// input contract of this index.
pub open spec fn reverse_values_wf(entries: Seq<NoteEntry>) -> bool {
    forall|i: int| 0 <= i < entries.len() ==> (#[trigger] entries[i]).value@.len() == 20
}

pub proof fn lemma_lookup_value_wf(entries: Seq<NoteEntry>, key: Seq<u8>)
    requires
        reverse_values_wf(entries),
        spec_note_lookup(entries, key) is Some,
    ensures
        spec_note_lookup(entries, key)->Some_0.len() == 20,
    decreases entries.len(),
{
    if entries.len() > 0 {
        if entries[0].key@ == key {
        } else {
            assert(reverse_values_wf(entries.drop_first()));
            lemma_lookup_value_wf(entries.drop_first(), key);
        }
    }
}

/// The source id recorded for a target hash, or the null id.
pub open spec fn spec_source_for_target(entries: Seq<NoteEntry>, rev: Seq<u8>) -> Seq<u8> {
    match spec_note_lookup(entries, rev) {
        Some(v) => v,
        None => spec_null_id(),
    }
}

/// The target hash recorded for a source id, or the null id when the
/// id has no note or its metadata does not parse.
pub open spec fn spec_target_for_source(notes: Seq<NoteEntry>, oid: Seq<u8>) -> Seq<u8> {
    match spec_target_of_source(notes, oid) {
        Some(t) => t,
        None => spec_null_id(),
    }
}

/// Resolve a target-format hash to its source-format object id. A missing
/// mapping yields the null id, not an error.
pub fn resolve_to_source(store: &mut Store, target: &HgObjectId) -> (r: ObjectId)
    requires
        reverse_values_wf(old(store).reverse_notes.entries@),
    ensures
        final(store).reverse_notes.entries == old(store).reverse_notes.entries,
        final(store).reverse_notes.materialized,
        final(store).metadata_notes == old(store).metadata_notes,
        final(store).file_notes == old(store).file_notes,
        final(store).objects == old(store).objects,
        final(store).manifests == old(store).manifests,
        final(store).committish == old(store).committish,
        r.wf(),
        r@ == spec_source_for_target(old(store).reverse_notes.entries@, target@),
{
    store.reverse_notes.ensure();
    match store.reverse_notes.get_note(target.bytes.as_slice()) {
        Some(v) => {
            proof {
                lemma_lookup_value_wf(store.reverse_notes.entries@, target@);
            }
            ObjectId { bytes: v }
        },
        None => ObjectId::null(),
    }
}

/// Resolve a source-format object id to its recorded target hash. A
/// missing or unreadable mapping yields the null hash, not an error.
pub fn resolve_to_target(store: &mut Store, oid: &ObjectId) -> (r: HgObjectId)
    ensures
        final(store).metadata_notes.entries == old(store).metadata_notes.entries,
        final(store).metadata_notes.materialized,
        final(store).reverse_notes == old(store).reverse_notes,
        final(store).file_notes == old(store).file_notes,
        final(store).objects == old(store).objects,
        final(store).manifests == old(store).manifests,
        final(store).committish == old(store).committish,
        r.wf(),
        r@ == spec_target_for_source(old(store).metadata_notes.entries@, oid@),
{
    store.metadata_notes.ensure();
    match store.metadata_notes.get_note(oid.bytes.as_slice()) {
        Some(blob) => match parse_metadata(blob.as_slice()) {
            Ok(rec) => rec.changeset,
            Err(_) => HgObjectId::null(),
        },
        None => HgObjectId::null(),
    }
}

/// One lookup line per input target hash: the source id (or the null id)
/// rendered as the first `width` hex characters.
pub fn hg2git_lines(store: &mut Store, revs: &Vec<AbbrevHgObjectId>, width: usize) -> (r: Vec<
    Vec<u8>,
>)
    requires
        reverse_values_wf(old(store).reverse_notes.entries@),
        3 <= width <= 40,
    ensures
        final(store).reverse_notes.entries == old(store).reverse_notes.entries,
        final(store).metadata_notes == old(store).metadata_notes,
        final(store).file_notes == old(store).file_notes,
        final(store).objects == old(store).objects,
        final(store).manifests == old(store).manifests,
        final(store).committish == old(store).committish,
        r@.len() == revs@.len(),
        forall|i: int| 0 <= i < revs@.len() ==> (#[trigger] r@[i])@ == spec_abbrev(
            spec_source_for_target(old(store).reverse_notes.entries@, revs@[i].id@),
            width as int,
        ),
{
    let mut out: Vec<Vec<u8>> = Vec::new();
    let mut i: usize = 0;
    while i < revs.len()
        invariant
            i <= revs@.len(),
            reverse_values_wf(store.reverse_notes.entries@),
            store.reverse_notes.entries == old(store).reverse_notes.entries,
            store.metadata_notes == old(store).metadata_notes,
            store.file_notes == old(store).file_notes,
            store.objects == old(store).objects,
            store.manifests == old(store).manifests,
            store.committish == old(store).committish,
            3 <= width <= 40,
            out@.len() == i,
            forall|k: int| 0 <= k < i ==> (#[trigger] out@[k])@ == spec_abbrev(
                spec_source_for_target(old(store).reverse_notes.entries@, revs@[k].id@),
                width as int,
            ),
        decreases revs@.len() - i,
    {
        let oid = resolve_to_source(store, &revs[i].id);
        out.push(oid.abbreviate(width));
        i = i + 1;
    }
    out
}

/// One lookup line per input committish: the target hash (or the null
/// hash) rendered as the first `width` hex characters. An expression the
/// store cannot resolve also renders as the null hash.
pub fn git2hg_lines(store: &mut Store, committish: &Vec<Vec<u8>>, width: usize) -> (r: Vec<Vec<u8>>)
    requires
        3 <= width <= 40,
    ensures
        final(store).metadata_notes.entries == old(store).metadata_notes.entries,
        final(store).reverse_notes == old(store).reverse_notes,
        final(store).file_notes == old(store).file_notes,
        final(store).objects == old(store).objects,
        final(store).manifests == old(store).manifests,
        final(store).committish == old(store).committish,
        r@.len() == committish@.len(),
        forall|i: int| 0 <= i < committish@.len() ==> (#[trigger] r@[i])@ == spec_abbrev(
            match spec_note_lookup(old(store).committish@, committish@[i]@) {
                Some(oid) => spec_target_for_source(old(store).metadata_notes.entries@, oid),
                None => spec_null_id(),
            },
            width as int,
        ),
{
    let mut out: Vec<Vec<u8>> = Vec::new();
    let mut i: usize = 0;
    while i < committish.len()
        invariant
            i <= committish@.len(),
            store.metadata_notes.entries == old(store).metadata_notes.entries,
            store.reverse_notes == old(store).reverse_notes,
            store.file_notes == old(store).file_notes,
            store.objects == old(store).objects,
            store.manifests == old(store).manifests,
            store.committish == old(store).committish,
            3 <= width <= 40,
            out@.len() == i,
            forall|k: int| 0 <= k < i ==> (#[trigger] out@[k])@ == spec_abbrev(
                match spec_note_lookup(old(store).committish@, committish@[k]@) {
                    Some(oid) => spec_target_for_source(old(store).metadata_notes.entries@, oid),
                    None => spec_null_id(),
                },
                width as int,
            ),
        decreases committish@.len() - i,
    {
        let target: HgObjectId = match store.resolve_committish(committish[i].as_slice()) {
            Some(oid_bytes) => {
                let oid = ObjectId { bytes: oid_bytes };
                resolve_to_target(store, &oid)
            },
            None => HgObjectId::null(),
        };
        out.push(target.abbreviate(width));
        i = i + 1;
    }
    out
}

/// A display width for abbreviation, accepted only in the range 3 to 40.
pub struct AbbrevSize(pub usize);

#[derive(Clone, Copy, PartialEq, Eq, Structural, Debug)]
pub enum AbbrevSizeError {
    /// Not a non-empty decimal number that fits.
    NotANumber,
    /// A number above 40.
    TooLarge,
    /// A number below 3.
    TooSmall,
}

impl AbbrevSize {
    /// Parse a display width from its decimal rendering.
    pub fn from_decimal(s: &[u8]) -> (r: Result<AbbrevSize, AbbrevSizeError>)
        ensures
            match r {
                Ok(a) => s@.len() > 0 && all_digits(s@) && 3 <= spec_dec_val(s@) <= 40 && a.0
                    == spec_dec_val(s@),
                Err(AbbrevSizeError::NotANumber) => s@.len() == 0 || !all_digits(s@)
                    || spec_dec_val(s@) > u64::MAX,
                Err(AbbrevSizeError::TooLarge) => all_digits(s@) && 40 < spec_dec_val(s@)
                    <= u64::MAX,
                Err(AbbrevSizeError::TooSmall) => s@.len() > 0 && all_digits(s@) && spec_dec_val(s@)
                    < 3,
            },
    {
        match parse_decimal(s) {
            Some(v) => {
                if v > 40 {
                    Err(AbbrevSizeError::TooLarge)
                } else if v < 3 {
                    Err(AbbrevSizeError::TooSmall)
                } else {
                    Ok(AbbrevSize(v as usize))
                }
            },
            None => Err(AbbrevSizeError::NotANumber),
        }
    }
}

} // verus!
