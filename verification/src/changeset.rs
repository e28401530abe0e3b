//! Assembly of the canonical target-format changeset bytes from a source
//! commit and its metadata record: the extra/committer merge rule, the
//! baseline byte layout, the revision hash over the two sorted parent
//! slots, and the trailing-null-padding adjustment loop that reproduces
//! historically disambiguated changesets bit for bit.

use vstd::prelude::*;

use crate::bytes::{
    bytes_equal, bytes_lt, copy_range, join_with, lex_lt, push_all, sort_byte_vecs, spec_join,
    spec_sort, spec_split, split_all,
};
use crate::digits::spec_hex;
use crate::hashes::{spec_null_id, HgObjectId};

verus! {

/// What the SHA-1 digest of a byte string is: a function of the bytes
/// alone, named but not written out here.
pub uninterp spec fn sha1_of(data: Seq<u8>) -> Seq<u8>;

/// Relies on sha1::Sha1 through the digest::Digest interface: the SHA-1
/// digest depends on the input bytes alone and is always 20 bytes.
#[verifier::external_body]
fn sha1_digest(data: &[u8]) -> (r: Vec<u8>)
    ensures
        r@ == sha1_of(data@),
        r@.len() == 20,
{
    let out = <sha1::Sha1 as sha1::Digest>::digest(data);
    out.as_slice().to_vec()
}

/// The target system's revision hash: the digest of the two 20-byte
/// parent slots followed by the changeset bytes.
pub open spec fn spec_rev_hash(p1: Seq<u8>, p2: Seq<u8>, body: Seq<u8>) -> Seq<u8> {
    sha1_of(p1 + p2 + body)
}

/// Hash a candidate changeset under the two parent slots.
pub fn revision_hash(p1: &HgObjectId, p2: &HgObjectId, body: &[u8]) -> (r: HgObjectId)
    ensures
        r.wf(),
        r@ == spec_rev_hash(p1@, p2@, body@),
{
    let mut msg: Vec<u8> = Vec::new();
    push_all(&mut msg, p1.bytes.as_slice());
    push_all(&mut msg, p2.bytes.as_slice());
    push_all(&mut msg, body);
    proof {
        assert(msg@ =~= p1@ + p2@ + body@);
    }
    let digest = sha1_digest(msg.as_slice());
    HgObjectId { bytes: digest }
}

pub open spec fn hg_ids_deep(s: Seq<HgObjectId>) -> Seq<Seq<u8>> {
    Seq::new(s.len(), |i: int| s[i]@)
}

/// The two slots hashed for a revision: the parents' target hashes sorted
/// by byte value, missing slots filled with the null hash.
pub open spec fn spec_parent_slots(parents: Seq<Seq<u8>>) -> (Seq<u8>, Seq<u8>) {
    let sorted = spec_sort(parents);
    (
        if sorted.len() >= 1 {
            sorted[0]
        } else {
            spec_null_id()
        },
        if sorted.len() >= 2 {
            sorted[1]
        } else {
            spec_null_id()
        },
    )
}

/// Sort the parents' target hashes and fill the two hashed slots.
pub fn parent_slots(parents: &Vec<HgObjectId>) -> (r: (HgObjectId, HgObjectId))
    ensures
        r.0@ == spec_parent_slots(hg_ids_deep(parents@)).0,
        r.1@ == spec_parent_slots(hg_ids_deep(parents@)).1,
{
    let mut raw: Vec<Vec<u8>> = Vec::new();
    let mut i: usize = 0;
    proof {
        assert(raw.deep_view() =~~= hg_ids_deep(parents@).take(0));
    }
    while i < parents.len()
        invariant
            i <= parents@.len(),
            raw.deep_view() == hg_ids_deep(parents@).take(i as int),
        decreases parents@.len() - i,
    {
        let ghost prev = raw.deep_view();
        let b = copy_range(parents[i].bytes.as_slice(), 0, parents[i].bytes.len());
        proof {
            assert(b@ =~= parents@[i as int]@);
        }
        raw.push(b);
        proof {
            assert(raw.deep_view() =~~= prev.push(b@));
            assert(raw.deep_view() =~~= hg_ids_deep(parents@).take(i + 1));
        }
        i = i + 1;
    }
    proof {
        assert(hg_ids_deep(parents@).take(parents@.len() as int) =~~= hg_ids_deep(parents@));
    }
    let mut sorted = sort_byte_vecs(raw);
    let ghost sv = spec_sort(hg_ids_deep(parents@));
    if sorted.len() >= 2 {
        let p2 = sorted.pop().unwrap();
        let p1 = sorted.pop().unwrap();
        if sorted.len() == 0 {
            proof {
                assert(p1@ == sv[0]);
                assert(p2@ == sv[1]);
            }
            return (HgObjectId { bytes: p1 }, HgObjectId { bytes: p2 });
        }
        // More than two parents: keep the first two of the sorted list.
        let q1 = copy_range(sorted[0].as_slice(), 0, sorted[0].len());
        let q2 = if sorted.len() >= 2 {
            copy_range(sorted[1].as_slice(), 0, sorted[1].len())
        } else {
            p1
        };
        proof {
            assert(q1@ =~= sv[0]);
            assert(q2@ =~= sv[1]);
        }
        return (HgObjectId { bytes: q1 }, HgObjectId { bytes: q2 });
    }
    if sorted.len() == 1 {
        let p1 = sorted.pop().unwrap();
        proof {
            assert(p1@ == sv[0]);
        }
        return (HgObjectId { bytes: p1 }, HgObjectId::null());
    }
    (HgObjectId::null(), HgObjectId::null())
}

/// The `committer:` key prefix of a synthesized extra entry.
pub open spec fn committer_prefix() -> Seq<u8> {
    seq![99u8, 111u8, 109u8, 109u8, 105u8, 116u8, 116u8, 101u8, 114u8, 58u8]
}

pub open spec fn spec_committer_entry(c: Seq<u8>) -> Seq<u8> {
    committer_prefix() + c
}

/// How many leading parts sort strictly before `bound`.
pub open spec fn spec_lt_prefix_count(parts: Seq<Seq<u8>>, bound: Seq<u8>) -> nat
    decreases parts.len(),
{
    if parts.len() == 0 {
        0
    } else if lex_lt(parts[0], bound) {
        1 + spec_lt_prefix_count(parts.drop_first(), bound)
    } else {
        0
    }
}

pub proof fn lemma_lt_prefix_count_at(parts: Seq<Seq<u8>>, bound: Seq<u8>, k: int)
    requires
        0 <= k <= parts.len(),
        forall|j: int| 0 <= j < k ==> lex_lt(#[trigger] parts[j], bound),
        k < parts.len() ==> !lex_lt(parts[k], bound),
    ensures
        spec_lt_prefix_count(parts, bound) == k,
    decreases k,
{
    if k > 0 {
        let t = parts.drop_first();
        assert(forall|j: int| 0 <= j < k - 1 ==> lex_lt(#[trigger] t[j], bound));
        lemma_lt_prefix_count_at(t, bound, k - 1);
    }
}

/// The extra/committer merge rule: entries that sort before `committer:`
/// keep their place, the synthesized entry comes next, the rest follow;
/// all joined by a null byte.
pub open spec fn spec_merge_extra(extra: Seq<u8>, centry: Seq<u8>) -> Seq<u8> {
    let parts = spec_split(extra, 0);
    let k = spec_lt_prefix_count(parts, committer_prefix()) as int;
    spec_join(parts.take(k) + seq![centry] + parts.skip(k), 0)
}

fn committer_prefix_vec() -> (r: Vec<u8>)
    ensures
        r@ == committer_prefix(),
{
    let r: Vec<u8> = vec![99u8, 111u8, 109u8, 109u8, 105u8, 116u8, 116u8, 101u8, 114u8, 58u8];
    proof {
        assert(r@ =~= committer_prefix());
    }
    r
}

/// Merge a synthesized committer entry into a stored extra blob.
#[verifier::loop_isolation(false)]
pub fn merge_extra(extra: &[u8], centry: Vec<u8>) -> (r: Vec<u8>)
    ensures
        r@ == spec_merge_extra(extra@, centry@),
{
    let bound = committer_prefix_vec();
    let mut parts = split_all(extra, 0);
    let ghost pv = parts.deep_view();
    let mut k: usize = 0;
    while k < parts.len() && bytes_lt(parts[k].as_slice(), bound.as_slice())
        invariant
            k <= parts@.len(),
            parts@.len() == pv.len(),
            parts.deep_view() == pv,
            forall|j: int| 0 <= j < k ==> lex_lt(#[trigger] pv[j], committer_prefix()),
        decreases parts@.len() - k,
    {
        proof {
            assert(pv[k as int] =~= parts@[k as int]@);
        }
        k = k + 1;
    }
    proof {
        assert(k < pv.len() ==> pv[k as int] =~= parts@[k as int]@);
        lemma_lt_prefix_count_at(pv, committer_prefix(), k as int);
    }
    let ghost cv = centry@;
    parts.insert(k, centry);
    proof {
        assert(parts.deep_view() =~~= pv.take(k as int) + seq![cv] + pv.skip(k as int));
    }
    join_with(&parts, 0)
}

/// The byte layout of the section listing the files, one `newline path`
/// pair per file.
pub open spec fn spec_files_section(fs: Seq<Seq<u8>>) -> Seq<u8>
    decreases fs.len(),
{
    if fs.len() == 0 {
        Seq::<u8>::empty()
    } else {
        spec_files_section(fs.drop_last()) + seq![10u8] + fs.last()
    }
}

/// The merged extra payload, if any: the stored blob, the synthesized
/// committer entry, or the two merged by the sort rule.
pub open spec fn spec_extra_section(extra: Option<Seq<u8>>, committer: Option<Seq<u8>>) -> Option<
    Seq<u8>,
> {
    match (extra, committer) {
        (None, None) => None,
        (Some(e), None) => Some(e),
        (None, Some(c)) => Some(spec_committer_entry(c)),
        (Some(e), Some(c)) => Some(spec_merge_extra(e, spec_committer_entry(c))),
    }
}

/// The baseline byte stream: manifest hex, newline, author, newline,
/// timestamp, space, offset, the optional extra payload after one space,
/// the sorted file list, a blank line, and the body.
pub open spec fn spec_baseline(
    manifest: Seq<u8>,
    author: Seq<u8>,
    ts: Seq<u8>,
    off: Seq<u8>,
    extra_sec: Option<Seq<u8>>,
    files: Option<Seq<u8>>,
    body: Seq<u8>,
) -> Seq<u8> {
    spec_hex(manifest) + seq![10u8] + author + seq![10u8] + ts + seq![32u8] + off + (match extra_sec {
        None => Seq::<u8>::empty(),
        Some(e) => seq![32u8] + e,
    }) + (match files {
        None => Seq::<u8>::empty(),
        Some(f) => spec_files_section(spec_sort(spec_split(f, 0))),
    }) + seq![10u8, 10u8] + body
}

/// Assemble the baseline byte stream.
#[verifier::loop_isolation(false)]
pub fn build_baseline(
    manifest: &HgObjectId,
    author: &[u8],
    ts: &[u8],
    off: &[u8],
    extra_sec: &Option<Vec<u8>>,
    files: &Option<Vec<u8>>,
    body: &[u8],
) -> (r: Vec<u8>)
    ensures
        r@ == spec_baseline(
            manifest@,
            author@,
            ts@,
            off@,
            crate::metadata::opt_view(*extra_sec),
            crate::metadata::opt_view(*files),
            body@,
        ),
{
    let mut out: Vec<u8> = Vec::new();
    let hexm = manifest.to_hex_bytes();
    push_all(&mut out, hexm.as_slice());
    out.push(10);
    push_all(&mut out, author);
    out.push(10);
    push_all(&mut out, ts);
    out.push(32);
    push_all(&mut out, off);
    match extra_sec {
        Some(e) => {
            out.push(32);
            push_all(&mut out, e.as_slice());
        },
        None => {},
    }
    let ghost head = out@;
    match files {
        Some(f) => {
            let fparts = sort_byte_vecs(split_all(f.as_slice(), 0));
            let ghost fv = fparts.deep_view();
            let mut i: usize = 0;
            while i < fparts.len()
                invariant
                    i <= fparts@.len(),
                    fparts@.len() == fv.len(),
                    fparts.deep_view() == fv,
                    out@ == head + spec_files_section(fv.take(i as int)),
                decreases fparts@.len() - i,
            {
                out.push(10);
                push_all(&mut out, fparts[i].as_slice());
                proof {
                    assert(fv.take(i + 1).drop_last() =~= fv.take(i as int));
                    assert(fv[i as int] =~= fparts@[i as int]@);
                    assert(out@ =~= head + spec_files_section(fv.take(i + 1)));
                }
                i = i + 1;
            }
            proof {
                assert(fv.take(fv.len() as int) =~= fv);
            }
        },
        None => {},
    }
    out.push(10);
    out.push(10);
    push_all(&mut out, body);
    proof {
        assert(out@ =~= spec_baseline(
            manifest@,
            author@,
            ts@,
            off@,
            crate::metadata::opt_view(*extra_sec),
            crate::metadata::opt_view(*files),
            body@,
        ));
    }
    out
}

/// How many null bytes end the candidate.
pub open spec fn spec_trailing_nulls(s: Seq<u8>) -> nat
    decreases s.len(),
{
    if s.len() == 0 || s.last() != 0 {
        0
    } else {
        1 + spec_trailing_nulls(s.drop_last())
    }
}

/// How many trailing null bytes the verification loop strips: it stops at
/// the first candidate whose hash matches the recorded one, or as soon as
/// the candidate no longer ends in a null byte.
pub open spec fn spec_strip_count(c: Seq<u8>, p1: Seq<u8>, p2: Seq<u8>, node: Seq<u8>) -> nat
    decreases c.len(),
{
    if c.len() == 0 || c.last() != 0 {
        0
    } else if spec_rev_hash(p1, p2, c) == node {
        0
    } else {
        1 + spec_strip_count(c.drop_last(), p1, p2, node)
    }
}

/// The candidate after the trailing-padding adjustment.
pub open spec fn spec_adjusted(c: Seq<u8>, p1: Seq<u8>, p2: Seq<u8>, node: Seq<u8>) -> Seq<u8> {
    c.take(c.len() - spec_strip_count(c, p1, p2, node))
}

/// Null-padding convergence: the stripping loop runs at most once per
/// trailing null byte of the candidate, and not at all for a candidate
/// without trailing nulls.
pub proof fn lemma_padding_convergence(c: Seq<u8>, p1: Seq<u8>, p2: Seq<u8>, node: Seq<u8>)
    ensures
        spec_strip_count(c, p1, p2, node) <= spec_trailing_nulls(c),
        spec_trailing_nulls(c) <= c.len(),
        spec_trailing_nulls(c) == 0 ==> spec_adjusted(c, p1, p2, node) == c,
    decreases c.len(),
{
    if c.len() == 0 || c.last() != 0 {
        assert(c.take(c.len() as int) =~= c);
    } else {
        lemma_padding_convergence(c.drop_last(), p1, p2, node);
        if spec_rev_hash(p1, p2, c) == node {
            assert(c.take(c.len() as int) =~= c);
        }
    }
}

/// Round trip: where the candidate consists of an original changeset's
/// bytes followed by extra trailing nulls, the recorded hash is the hash
/// of those original bytes, and no longer candidate hashes to it, the
/// adjustment returns exactly the original bytes, and their hash matches
/// the recorded one.
pub proof fn lemma_reconstruction_round_trip(
    c: Seq<u8>,
    p1: Seq<u8>,
    p2: Seq<u8>,
    node: Seq<u8>,
    k: int,
)
    requires
        0 <= k <= spec_trailing_nulls(c),
        spec_rev_hash(p1, p2, c.take(c.len() - k)) == node,
        forall|j: int| 0 <= j < k ==> spec_rev_hash(p1, p2, #[trigger] c.take(c.len() - j)) != node,
    ensures
        spec_strip_count(c, p1, p2, node) == k,
        spec_adjusted(c, p1, p2, node) == c.take(c.len() - k),
        spec_rev_hash(p1, p2, spec_adjusted(c, p1, p2, node)) == node,
    decreases k,
{
    lemma_padding_convergence(c, p1, p2, node);
    if k == 0 {
        if c.len() == 0 || c.last() != 0 {
        } else {
            assert(c.take(c.len() - 0) =~= c);
        }
    } else {
        assert(c.len() > 0 && c.last() == 0);
        assert(c.take(c.len() - 0) =~= c);
        assert(spec_rev_hash(p1, p2, c) != node);
        let t = c.drop_last();
        assert(t.take(t.len() - (k - 1)) =~= c.take(c.len() - k));
        assert forall|j: int| 0 <= j < k - 1 implies spec_rev_hash(
            p1,
            p2,
            #[trigger] t.take(t.len() - j),
        ) != node by {
            assert(t.take(t.len() - j) =~= c.take(c.len() - (j + 1)));
        }
        lemma_reconstruction_round_trip(t, p1, p2, node, k - 1);
    }
}

/// The trailing-padding adjustment: strip trailing null bytes one at a
/// time until the candidate's revision hash equals the recorded one, or
/// no trailing null byte is left. When the nulls run out without a match
/// the shortest candidate is accepted as the best-effort reconstruction,
/// never a hard failure.
pub fn adjust_trailing_nulls(
    candidate: Vec<u8>,
    p1: &HgObjectId,
    p2: &HgObjectId,
    node: &HgObjectId,
) -> (r: Vec<u8>)
    ensures
        r@ == spec_adjusted(candidate@, p1@, p2@, node@),
{
    let ghost c0 = candidate@;
    let mut buf = candidate;
    proof {
        assert(buf@ =~= c0.take(buf@.len() as int));
    }
    loop
        invariant
            buf@.len() <= c0.len(),
            buf@ == c0.take(buf@.len() as int),
            spec_strip_count(c0, p1@, p2@, node@) == (c0.len() - buf@.len()) + spec_strip_count(
                buf@,
                p1@,
                p2@,
                node@,
            ),
        ensures
            buf@ == c0.take(buf@.len() as int),
            spec_strip_count(c0, p1@, p2@, node@) == (c0.len() - buf@.len()) + spec_strip_count(
                buf@,
                p1@,
                p2@,
                node@,
            ),
            spec_strip_count(buf@, p1@, p2@, node@) == 0,
        decreases buf@.len(),
    {
        if buf.len() == 0 {
            break ;
        }
        if buf[buf.len() - 1] != 0 {
            break ;
        }
        let h = revision_hash(p1, p2, buf.as_slice());
        if bytes_equal(h.bytes.as_slice(), node.bytes.as_slice()) {
            proof {
                assert(spec_strip_count(buf@, p1@, p2@, node@) == 0);
            }
            break ;
        }
        let ghost before = buf@;
        buf.pop();
        proof {
            assert(buf@ =~= before.drop_last());
            assert(buf@ =~= c0.take(buf@.len() as int));
        }
    }
    proof {
        assert(spec_strip_count(buf@, p1@, p2@, node@) == 0);
        assert(spec_adjusted(c0, p1@, p2@, node@) =~= buf@);
    }
    buf
}

} // verus!

verus! {

use crate::authorship::{
    from_source_line, spec_author_line_valid, spec_author_name, spec_author_offset,
    spec_author_timestamp, spec_to_target, to_target_bytes,
};
use crate::commit::{parse_commit, spec_parse_commit, CommitView};
use crate::errors::DumpError;
use crate::metadata::{opt_view, parse_metadata, spec_parse_metadata, MetaView};
use crate::patch::{apply_patch, edits_deep, parse_patch, spec_apply_edits, spec_edits_ok, spec_parse_patch};
use crate::store::{spec_note_lookup, ObjKind, Store};

/// The target hash recorded for a source commit: the `changeset` field of
/// its metadata record in the given metadata notes tree.
pub open spec fn spec_target_of_source(notes: Seq<crate::store::NoteEntry>, oid: Seq<u8>) -> Option<
    Seq<u8>,
> {
    match spec_note_lookup(notes, oid) {
        None => None,
        Some(blob) => match spec_parse_metadata(blob) {
            None => None,
            Some(m) => Some(m.changeset),
        },
    }
}

/// The parents' target hashes, in encounter order; `None` when any parent
/// has no well-formed recorded mapping.
pub open spec fn spec_resolve_parents(
    notes: Seq<crate::store::NoteEntry>,
    parents: Seq<Seq<u8>>,
) -> Option<Seq<Seq<u8>>>
    decreases parents.len(),
{
    if parents.len() == 0 {
        Some(Seq::empty())
    } else {
        match spec_target_of_source(notes, parents[0]) {
            None => None,
            Some(t) => match spec_resolve_parents(notes, parents.drop_first()) {
                None => None,
                Some(r) => Some(seq![t].add(r)),
            },
        }
    }
}

/// The reconstruction pipeline after commit and metadata have been read:
/// authorship decoding with the optional author override, the
/// extra/committer merge, baseline assembly, the optional patch, and the
/// trailing-padding adjustment under the recorded hash.
pub open spec fn spec_reconstruct_from(
    notes: Seq<crate::store::NoteEntry>,
    meta: MetaView,
    commit: CommitView,
) -> Result<Seq<u8>, DumpError> {
    if !spec_author_line_valid(commit.author) {
        Err(DumpError::CorruptIndex)
    } else if commit.committer != commit.author && !spec_author_line_valid(commit.committer) {
        Err(DumpError::CorruptIndex)
    } else {
        let author = match meta.author {
            Some(a) => a,
            None => spec_author_name(commit.author),
        };
        let committer = if commit.committer != commit.author {
            Some(spec_to_target(commit.committer))
        } else {
            None
        };
        let baseline = spec_baseline(
            meta.manifest,
            author,
            spec_author_timestamp(commit.author),
            spec_author_offset(commit.author),
            spec_extra_section(meta.extra, committer),
            meta.files,
            commit.body,
        );
        match spec_resolve_parents(notes, commit.parents) {
            None => Err(DumpError::CorruptIndex),
            Some(ptargets) => {
                let patched: Result<Seq<u8>, DumpError> = match meta.patch {
                    None => Ok(baseline),
                    Some(pblob) => match spec_parse_patch(pblob) {
                        None => Err(DumpError::CorruptIndex),
                        Some(edits) => if spec_edits_ok(edits, 0, baseline.len() as int) {
                            Ok(spec_apply_edits(baseline, edits, 0))
                        } else {
                            Err(DumpError::MalformedPatch)
                        },
                    },
                };
                match patched {
                    Err(e) => Err(e),
                    Ok(candidate) => {
                        let slots = spec_parent_slots(ptargets);
                        Ok(spec_adjusted(candidate, slots.0, slots.1, meta.changeset))
                    },
                }
            },
        }
    }
}

/// Reconstruction of the target-format changeset bytes for a target
/// revision hash: resolve it to the source commit, read that commit and
/// its metadata record, and run the pipeline.
pub open spec fn spec_reconstruct(s: Store, rev: Seq<u8>) -> Result<Seq<u8>, DumpError> {
    match spec_note_lookup(s.reverse_notes.entries@, rev) {
        None => Err(DumpError::UnknownRevision),
        Some(oid) => match spec_note_lookup(s.metadata_notes.entries@, oid) {
            None => Err(DumpError::CorruptIndex),
            Some(blob) => match spec_parse_metadata(blob) {
                None => Err(DumpError::CorruptIndex),
                Some(meta) => match s.lookup_object(oid) {
                    None => Err(DumpError::UnknownRevision),
                    Some((kind, raw)) => if kind != ObjKind::Commit {
                        Err(DumpError::CorruptIndex)
                    } else {
                        match spec_parse_commit(raw) {
                            None => Err(DumpError::CorruptIndex),
                            Some(commit) => spec_reconstruct_from(
                                s.metadata_notes.entries@,
                                meta,
                                commit,
                            ),
                        }
                    },
                },
            },
        },
    }
}

/// Reconstruct the exact target-format bytes of the changeset stored for
/// `rev`. Fails with `UnknownRevision` when `rev` has no recorded mapping
/// or the mapped commit is absent, with `CorruptIndex` on any missing or
/// malformed metadata, and with `MalformedPatch` on impossible patch
/// offsets.
#[verifier::loop_isolation(false)]
pub fn reconstruct_changeset(store: &mut Store, rev: &HgObjectId) -> (r: Result<
    Vec<u8>,
    DumpError,
>)
    ensures
        final(store).metadata_notes.entries == old(store).metadata_notes.entries,
        final(store).metadata_notes.materialized,
        final(store).reverse_notes.entries == old(store).reverse_notes.entries,
        final(store).reverse_notes.materialized,
        final(store).file_notes == old(store).file_notes,
        final(store).objects == old(store).objects,
        final(store).manifests == old(store).manifests,
        final(store).committish == old(store).committish,
        match r {
            Ok(v) => spec_reconstruct(*old(store), rev@) == Result::<Seq<u8>, DumpError>::Ok(v@),
            Err(e) => spec_reconstruct(*old(store), rev@) == Result::<Seq<u8>, DumpError>::Err(e),
        },
{
    store.reverse_notes.ensure();
    store.metadata_notes.ensure();
    let oid = match store.reverse_notes.get_note(rev.bytes.as_slice()) {
        Some(v) => v,
        None => {
            return Err(DumpError::UnknownRevision);
        },
    };
    let blob = match store.metadata_notes.get_note(oid.as_slice()) {
        Some(b) => b,
        None => {
            return Err(DumpError::CorruptIndex);
        },
    };
    let meta = match parse_metadata(blob.as_slice()) {
        Ok(m) => m,
        Err(e) => {
            return Err(e);
        },
    };
    let obj = match store.read_object(oid.as_slice()) {
        Some(o) => o,
        None => {
            return Err(DumpError::UnknownRevision);
        },
    };
    match obj.kind {
        ObjKind::Commit => {},
        ObjKind::Blob => {
            return Err(DumpError::CorruptIndex);
        },
    }
    let commit = match parse_commit(obj.data.as_slice()) {
        Ok(c) => c,
        Err(e) => {
            return Err(e);
        },
    };
    let parts = match from_source_line(commit.author.as_slice()) {
        Some(p) => p,
        None => {
            return Err(DumpError::CorruptIndex);
        },
    };
    let author_is_committer = bytes_equal(commit.author.as_slice(), commit.committer.as_slice());
    let committer_bytes: Option<Vec<u8>> = if !author_is_committer {
        match to_target_bytes(commit.committer.as_slice()) {
            Some(v) => Some(v),
            None => {
                return Err(DumpError::CorruptIndex);
            },
        }
    } else {
        None
    };
    let author_field: Vec<u8> = match &meta.author {
        Some(a) => {
            let c = copy_range(a.as_slice(), 0, a.len());
            proof {
                assert(c@ =~= a@);
            }
            c
        },
        None => parts.name,
    };
    let extra_sec: Option<Vec<u8>> = match committer_bytes {
        None => match &meta.extra {
            None => None,
            Some(e) => {
                let c = copy_range(e.as_slice(), 0, e.len());
                proof {
                    assert(c@ =~= e@);
                }
                Some(c)
            },
        },
        Some(cb) => {
            let mut centry = committer_prefix_vec();
            push_all(&mut centry, cb.as_slice());
            proof {
                assert(centry@ =~= spec_committer_entry(cb@));
            }
            match &meta.extra {
                None => Some(centry),
                Some(e) => Some(merge_extra(e.as_slice(), centry)),
            }
        },
    };
    let ghost pv = crate::commit::ids_deep(commit.parents@);
    let mut ptargets: Vec<HgObjectId> = Vec::new();
    let mut i: usize = 0;
    proof {
        assert(pv.skip(0) =~= pv);
    }
    while i < commit.parents.len()
        invariant
            i <= commit.parents@.len(),
            commit.parents@.len() == pv.len(),
            forall|k: int| 0 <= k < pv.len() ==> pv[k] == commit.parents@[k]@,
            store.metadata_notes.entries == old(store).metadata_notes.entries,
            store.metadata_notes.materialized,
            match spec_resolve_parents(store.metadata_notes.entries@, pv.skip(i as int)) {
                None => spec_resolve_parents(store.metadata_notes.entries@, pv) is None,
                Some(rest) => spec_resolve_parents(store.metadata_notes.entries@, pv) == Some(
                    hg_ids_deep(ptargets@).add(rest),
                ),
            },
        decreases commit.parents@.len() - i,
    {
        let ghost done = hg_ids_deep(ptargets@);
        proof {
            assert(pv.skip(i as int)[0] == commit.parents@[i as int]@);
            assert(pv.skip(i as int).drop_first() =~= pv.skip(i + 1));
        }
        let pnote = match store.metadata_notes.get_note(commit.parents[i].bytes.as_slice()) {
            Some(n) => n,
            None => {
                return Err(DumpError::CorruptIndex);
            },
        };
        let pmeta = match parse_metadata(pnote.as_slice()) {
            Ok(m) => m,
            Err(_) => {
                return Err(DumpError::CorruptIndex);
            },
        };
        let ghost tv = pmeta.changeset@;
        ptargets.push(pmeta.changeset);
        proof {
            assert(hg_ids_deep(ptargets@) =~~= done.push(tv));
            match spec_resolve_parents(store.metadata_notes.entries@, pv.skip(i + 1)) {
                None => {},
                Some(rest) => {
                    assert(spec_resolve_parents(store.metadata_notes.entries@, pv.skip(i as int))
                        == Some(seq![tv].add(rest)));
                    assert(done.add(seq![tv].add(rest)) =~~= hg_ids_deep(ptargets@).add(rest));
                },
            }
        }
        i = i + 1;
    }
    proof {
        assert(pv.skip(pv.len() as int) =~= Seq::<Seq<u8>>::empty());
        assert(hg_ids_deep(ptargets@).add(Seq::empty()) =~~= hg_ids_deep(ptargets@));
    }
    let baseline = build_baseline(
        &meta.manifest,
        author_field.as_slice(),
        parts.timestamp.as_slice(),
        parts.utcoffset.as_slice(),
        &extra_sec,
        &meta.files,
        commit.body.as_slice(),
    );
    let candidate = match &meta.patch {
        None => baseline,
        Some(p) => {
            let edits = match parse_patch(p.as_slice()) {
                Ok(e) => e,
                Err(e) => {
                    return Err(e);
                },
            };
            match apply_patch(baseline.as_slice(), &edits) {
                Ok(v) => v,
                Err(e) => {
                    return Err(e);
                },
            }
        },
    };
    let slots = parent_slots(&ptargets);
    let out = adjust_trailing_nulls(candidate, &slots.0, &slots.1, &meta.changeset);
    Ok(out)
}

} // verus!
