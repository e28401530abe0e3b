//! End-to-end tests of the changeset reconstruction engine and the
//! manifest and file resolvers, against a store built in memory, with the
//! recorded hashes computed by the real digest.

use sha1::{Digest, Sha1};

use cinnabar::errors::DumpError;
use cinnabar::hashes::{AbbrevHgObjectId, HgObjectId, ObjectId};
use cinnabar::metadata::parse_metadata;
use cinnabar::resolver::{dump, dump_file, dump_manifest, HgObjectType};
use cinnabar::store::{ObjKind, Store};

fn hg(hex: &str) -> HgObjectId {
    HgObjectId::from_hex(hex.as_bytes()).unwrap()
}

fn oid(hex: &str) -> ObjectId {
    ObjectId::from_hex(hex.as_bytes()).unwrap()
}

fn abbrev(id: &HgObjectId) -> AbbrevHgObjectId {
    AbbrevHgObjectId::from_hex(&id.to_hex_bytes()).unwrap()
}

fn sha1_cat(parts: &[&[u8]]) -> Vec<u8> {
    let mut msg = Vec::new();
    for p in parts {
        msg.extend_from_slice(p);
    }
    Sha1::digest(&msg).to_vec()
}

fn hex_str(bytes: &[u8]) -> String {
    let mut s = String::new();
    for b in bytes {
        s.push(char::from_digit((b >> 4) as u32, 16).unwrap());
        s.push(char::from_digit((b & 15) as u32, 16).unwrap());
    }
    s
}

const X: &str = "1111111111111111111111111111111111111111";
const P: &str = "2222222222222222222222222222222222222222";
const M: &str = "3333333333333333333333333333333333333333";
const PHG: &str = "aaaaaaaaaaaaaaaaaaaaaaaaaaaaaaaaaaaaaaaa";

/// A store holding one translated commit with one parent, no extra, no
/// files, no patch; returns the store, the recorded node, and the exact
/// expected changeset bytes.
fn simple_store(body: &[u8], strip: usize) -> (Store, HgObjectId, Vec<u8>) {
    let mut commit_raw = Vec::new();
    commit_raw.extend_from_slice(b"tree 4444444444444444444444444444444444444444\n");
    commit_raw.extend_from_slice(format!("parent {}\n", P).as_bytes());
    commit_raw.extend_from_slice(b"author Who <a@b> 1234567890 +0200\n");
    commit_raw.extend_from_slice(b"committer Who <a@b> 1234567890 +0200\n");
    commit_raw.extend_from_slice(b"\n");
    commit_raw.extend_from_slice(body);

    let mut candidate = Vec::new();
    candidate.extend_from_slice(M.as_bytes());
    candidate.extend_from_slice(b"\nWho <a@b>\n1234567890 -7200\n\n");
    candidate.extend_from_slice(body);
    let expected = candidate[..candidate.len() - strip].to_vec();

    let null20 = [0u8; 20];
    let node_bytes = sha1_cat(&[&hg(PHG).bytes, &null20, &expected]);
    let node = hg(&hex_str(&node_bytes));

    let mut meta = Vec::new();
    meta.extend_from_slice(format!("changeset {}\n", hex_str(&node.bytes)).as_bytes());
    meta.extend_from_slice(format!("manifest {}", M).as_bytes());

    let mut store = Store::new();
    store.reverse_notes.add(node.bytes.clone(), oid(X).bytes);
    store.metadata_notes.add(oid(X).bytes, meta);
    store
        .metadata_notes
        .add(oid(P).bytes, format!("changeset {}", PHG).into_bytes());
    store.add_object(oid(X).bytes, ObjKind::Commit, commit_raw);
    (store, node, expected)
}

#[test]
fn changeset_round_trip() {
    let (mut store, node, expected) = simple_store(b"body text", 0);
    let out = dump(&mut store, HgObjectType::Changeset, &abbrev(&node)).unwrap();
    assert_eq!(out, expected);
}

#[test]
fn changeset_strips_one_trailing_null() {
    // The candidate ends in two null bytes; the recorded hash is that of
    // the candidate with one of them stripped.
    let (mut store, node, expected) = simple_store(b"body\0\0", 1);
    let out = dump(&mut store, HgObjectType::Changeset, &abbrev(&node)).unwrap();
    assert_eq!(out, expected);
    assert!(out.ends_with(b"body\0"));
}

#[test]
fn changeset_keeps_matching_trailing_null() {
    // The recorded hash is that of the full candidate: nothing stripped.
    let (mut store, node, expected) = simple_store(b"body\0\0", 0);
    let out = dump(&mut store, HgObjectType::Changeset, &abbrev(&node)).unwrap();
    assert_eq!(out, expected);
    assert!(out.ends_with(b"body\0\0"));
}

#[test]
fn changeset_unknown_revision() {
    let mut store = Store::new();
    let rev = abbrev(&hg(PHG));
    assert_eq!(
        dump(&mut store, HgObjectType::Changeset, &rev),
        Err(DumpError::UnknownRevision)
    );
}

#[test]
fn changeset_missing_metadata_is_corrupt() {
    let mut store = Store::new();
    let node = hg(PHG);
    store.reverse_notes.add(node.bytes.clone(), oid(X).bytes);
    assert_eq!(
        dump(&mut store, HgObjectType::Changeset, &abbrev(&node)),
        Err(DumpError::CorruptIndex)
    );
}

#[test]
fn metadata_unknown_key_is_corrupt() {
    assert!(matches!(
        parse_metadata(b"changeset aaaaaaaaaaaaaaaaaaaaaaaaaaaaaaaaaaaaaaaa\nbogus v"),
        Err(DumpError::CorruptIndex)
    ));
    assert!(matches!(parse_metadata(b"manifest zzzz"), Err(DumpError::CorruptIndex)));
    assert!(matches!(parse_metadata(b"nospace"), Err(DumpError::CorruptIndex)));
    // The changeset field is owed.
    assert!(matches!(parse_metadata(b"extra a:1"), Err(DumpError::CorruptIndex)));
}

#[test]
fn changeset_with_extra_files_and_committer() {
    let mut commit_raw = Vec::new();
    commit_raw.extend_from_slice(format!("parent {}\n", P).as_bytes());
    commit_raw.extend_from_slice(b"author Who <a@b> 1234567890 +0200\n");
    commit_raw.extend_from_slice(b"committer Other <o@o> 111 +0000\n");
    commit_raw.extend_from_slice(b"\nbody");

    // Files are stored unordered and emitted sorted; the committer entry
    // merges into the stored extra at its sorted position.
    let mut candidate = Vec::new();
    candidate.extend_from_slice(M.as_bytes());
    candidate.extend_from_slice(b"\nWho <a@b>\n1234567890 -7200");
    candidate.extend_from_slice(b" branch:foo\0committer:Other <o@o> 111 0\0rebase_source:x");
    candidate.extend_from_slice(b"\nalpha\nbeta");
    candidate.extend_from_slice(b"\n\nbody");

    let null20 = [0u8; 20];
    let node_bytes = sha1_cat(&[&hg(PHG).bytes, &null20, &candidate]);
    let node = hg(&hex_str(&node_bytes));

    let mut meta = Vec::new();
    meta.extend_from_slice(format!("changeset {}\n", hex_str(&node.bytes)).as_bytes());
    meta.extend_from_slice(format!("manifest {}\n", M).as_bytes());
    meta.extend_from_slice(b"extra branch:foo\0rebase_source:x\n");
    meta.extend_from_slice(b"files beta\0alpha");

    let mut store = Store::new();
    store.reverse_notes.add(node.bytes.clone(), oid(X).bytes);
    store.metadata_notes.add(oid(X).bytes, meta);
    store
        .metadata_notes
        .add(oid(P).bytes, format!("changeset {}", PHG).into_bytes());
    store.add_object(oid(X).bytes, ObjKind::Commit, commit_raw);

    let out = dump(&mut store, HgObjectType::Changeset, &abbrev(&node)).unwrap();
    assert_eq!(out, candidate);
}

#[test]
fn changeset_author_override_and_patch() {
    let mut commit_raw = Vec::new();
    commit_raw.extend_from_slice(b"author Who <a@b> 10 +0000\n");
    commit_raw.extend_from_slice(b"committer Who <a@b> 10 +0000\n");
    commit_raw.extend_from_slice(b"\nbody");

    // Baseline before the patch, with the author name overridden.
    let baseline = format!("{}\nOverride <x@y>\n10 0\n\nbody", M).into_bytes();
    // The patch replaces the two bytes at 41..43 ("Ov") with "OX".
    let mut candidate = baseline.clone();
    assert_eq!(&candidate[41..43], b"Ov");
    candidate[42] = b'X';

    let node_bytes = sha1_cat(&[&[0u8; 20], &[0u8; 20], &candidate]);
    let node = hg(&hex_str(&node_bytes));

    let mut meta = Vec::new();
    meta.extend_from_slice(format!("changeset {}\n", hex_str(&node.bytes)).as_bytes());
    meta.extend_from_slice(format!("manifest {}\n", M).as_bytes());
    meta.extend_from_slice(b"author Override <x@y>\n");
    meta.extend_from_slice(b"patch 41,43,%4FX");

    let mut store = Store::new();
    store.reverse_notes.add(node.bytes.clone(), oid(X).bytes);
    store.metadata_notes.add(oid(X).bytes, meta);
    store.add_object(oid(X).bytes, ObjKind::Commit, commit_raw);

    let out = dump(&mut store, HgObjectType::Changeset, &abbrev(&node)).unwrap();
    assert_eq!(out, candidate);
}

#[test]
fn changeset_patch_with_bad_offsets_fails() {
    let mut commit_raw = Vec::new();
    commit_raw.extend_from_slice(b"author Who <a@b> 10 +0000\n");
    commit_raw.extend_from_slice(b"committer Who <a@b> 10 +0000\n");
    commit_raw.extend_from_slice(b"\nbody");

    let node = hg(PHG);
    let mut meta = Vec::new();
    meta.extend_from_slice(format!("changeset {}\n", hex_str(&node.bytes)).as_bytes());
    meta.extend_from_slice(b"patch 999999,999999,x");

    let mut store = Store::new();
    store.reverse_notes.add(node.bytes.clone(), oid(X).bytes);
    store.metadata_notes.add(oid(X).bytes, meta);
    store.add_object(oid(X).bytes, ObjKind::Commit, commit_raw);

    assert_eq!(
        dump(&mut store, HgObjectType::Changeset, &abbrev(&node)),
        Err(DumpError::MalformedPatch)
    );
}

#[test]
fn manifest_request_emits_generated_bytes() {
    let mut store = Store::new();
    let rev = hg(PHG);
    store.reverse_notes.add(rev.bytes.clone(), oid(X).bytes);
    store.add_manifest(oid(X).bytes, b"manifest bytes".to_vec());
    let out = dump_manifest(&mut store, &rev).unwrap();
    assert_eq!(out, b"manifest bytes".to_vec());
    let out = dump(&mut store, HgObjectType::Manifest, &abbrev(&rev)).unwrap();
    assert_eq!(out, b"manifest bytes".to_vec());
}

#[test]
fn manifest_request_for_unknown_revision() {
    let mut store = Store::new();
    assert_eq!(dump_manifest(&mut store, &hg(PHG)), Err(DumpError::UnknownRevision));
}

#[test]
fn file_without_metadata_note_is_bare_content() {
    let mut store = Store::new();
    let rev = hg(PHG);
    store.reverse_notes.add(rev.bytes.clone(), oid(X).bytes);
    store.add_object(oid(X).bytes, ObjKind::Blob, b"file content".to_vec());
    let out = dump_file(&mut store, &rev).unwrap();
    assert_eq!(out, b"file content".to_vec());
}

#[test]
fn file_with_metadata_note_is_delimited() {
    let mut store = Store::new();
    let rev = hg(PHG);
    store.reverse_notes.add(rev.bytes.clone(), oid(X).bytes);
    store.add_object(oid(X).bytes, ObjKind::Blob, b"file content".to_vec());
    store.file_notes.add(rev.bytes.clone(), b"copy: old".to_vec());
    let out = dump(&mut store, HgObjectType::File, &abbrev(&rev)).unwrap();
    assert_eq!(out, b"\x01\ncopy: old\x01\nfile content".to_vec());
}
