//! Tests of the bidirectional lookup index: null placeholders for missing
//! mappings, batch lookups with one line per input, and the lazily
//! materialized notes trees.

use cinnabar::hashes::{AbbrevHgObjectId, HgObjectId, ObjectId};
use cinnabar::index::{git2hg_lines, hg2git_lines, resolve_to_source, resolve_to_target};
use cinnabar::store::Store;

fn hg(hex: &str) -> HgObjectId {
    HgObjectId::from_hex(hex.as_bytes()).unwrap()
}

fn oid(hex: &str) -> ObjectId {
    ObjectId::from_hex(hex.as_bytes()).unwrap()
}

const X: &str = "1111111111111111111111111111111111111111";
const N: &str = "aaaaaaaaaaaaaaaaaaaaaaaaaaaaaaaaaaaaaaaa";
const U: &str = "bbbbbbbbbbbbbbbbbbbbbbbbbbbbbbbbbbbbbbbb";

#[test]
fn missing_mapping_yields_null_hash() {
    let mut store = Store::new();
    let r = resolve_to_target(&mut store, &oid(X));
    assert!(r.is_null());
    // Rendering the null hash at any width yields that many zeros.
    assert_eq!(r.abbreviate(3), b"000".to_vec());
    assert_eq!(r.abbreviate(12), b"000000000000".to_vec());
    assert_eq!(r.abbreviate(40), vec![b'0'; 40]);
}

#[test]
fn missing_reverse_mapping_yields_null_id() {
    let mut store = Store::new();
    let r = resolve_to_source(&mut store, &hg(N));
    assert!(r.is_null());
}

#[test]
fn resolve_to_target_reads_the_changeset_field() {
    let mut store = Store::new();
    store
        .metadata_notes
        .add(oid(X).bytes, format!("changeset {}", N).into_bytes());
    let r = resolve_to_target(&mut store, &oid(X));
    assert_eq!(r.to_hex_bytes(), N.as_bytes().to_vec());
}

#[test]
fn hg2git_batch_one_line_per_input_in_order() {
    let mut store = Store::new();
    store.reverse_notes.add(hg(N).bytes.clone(), oid(X).bytes);
    let revs = vec![
        AbbrevHgObjectId::from_hex(N.as_bytes()).unwrap(),
        AbbrevHgObjectId::from_hex(U.as_bytes()).unwrap(),
    ];
    let lines = hg2git_lines(&mut store, &revs, 12);
    assert_eq!(lines.len(), 2);
    assert_eq!(lines[0], b"111111111111".to_vec());
    assert_eq!(lines[1], b"000000000000".to_vec());
}

#[test]
fn git2hg_batch_resolves_committish() {
    let mut store = Store::new();
    store.add_committish(b"main".to_vec(), oid(X).bytes);
    store
        .metadata_notes
        .add(oid(X).bytes, format!("changeset {}", N).into_bytes());
    let exprs = vec![b"main".to_vec(), b"gone".to_vec()];
    let lines = git2hg_lines(&mut store, &exprs, 6);
    assert_eq!(lines.len(), 2);
    assert_eq!(lines[0], b"aaaaaa".to_vec());
    assert_eq!(lines[1], b"000000".to_vec());
}

#[test]
fn notes_tree_materialization_is_idempotent() {
    let mut store = Store::new();
    assert!(!store.metadata_notes.materialized);
    store.metadata_notes.ensure();
    assert!(store.metadata_notes.materialized);
    store.metadata_notes.ensure();
    assert!(store.metadata_notes.materialized);
    assert_eq!(store.metadata_notes.entries.len(), 0);
}
