//! Explicit-handle model of the external object store and its notes trees.
//! Objects are immutable once stored; a notes tree is lazily and
//! idempotently materialized before its first lookup and never otherwise
//! mutated. All tables are read-only views for the duration of a request.

use vstd::prelude::*;

use crate::bytes::{bytes_equal, copy_range};

verus! {

#[derive(Clone, Copy, PartialEq, Eq, Structural, Debug)]
pub enum ObjKind {
    Commit,
    Blob,
}

/// An owned raw object read from the store.
pub struct RawObject {
    pub kind: ObjKind,
    pub data: Vec<u8>,
}

/// One association of a hash-shaped key with auxiliary bytes.
pub struct NoteEntry {
    pub key: Vec<u8>,
    pub value: Vec<u8>,
}

/// A hash-keyed side-annotation table with a materialization flag.
pub struct NotesTree {
    pub materialized: bool,
    pub entries: Vec<NoteEntry>,
}

/// First value associated with `key`, if any.
pub open spec fn spec_note_lookup(entries: Seq<NoteEntry>, key: Seq<u8>) -> Option<Seq<u8>>
    decreases entries.len(),
{
    if entries.len() == 0 {
        None
    } else if entries[0].key@ == key {
        Some(entries[0].value@)
    } else {
        spec_note_lookup(entries.drop_first(), key)
    }
}

impl NotesTree {
    pub open spec fn lookup(&self, key: Seq<u8>) -> Option<Seq<u8>> {
        spec_note_lookup(self.entries@, key)
    }

    pub fn new() -> (r: NotesTree)
        ensures
            !r.materialized,
            r.entries@.len() == 0,
    {
        NotesTree { materialized: false, entries: Vec::new() }
    }

    /// Materialize the tree; a second call is a no-op.
    pub fn ensure(&mut self)
        ensures
            final(self).materialized,
            final(self).entries == old(self).entries,
    {
        self.materialized = true;
    }

    pub fn add(&mut self, key: Vec<u8>, value: Vec<u8>)
        ensures
            final(self).materialized == old(self).materialized,
            final(self).entries@ == old(self).entries@.push(NoteEntry { key, value }),
    {
        self.entries.push(NoteEntry { key, value });
    }

    /// Point lookup. The tree must have been materialized first.
    #[verifier::loop_isolation(false)]
    pub fn get_note(&self, key: &[u8]) -> (r: Option<Vec<u8>>)
        requires
            self.materialized,
        ensures
            match r {
                Some(v) => self.lookup(key@) == Some(v@),
                None => self.lookup(key@) is None,
            },
    {
        let mut i: usize = 0;
        proof {
            assert(self.entries@.skip(0) =~= self.entries@);
        }
        while i < self.entries.len()
            invariant
                i <= self.entries@.len(),
                spec_note_lookup(self.entries@, key@) == spec_note_lookup(
                    self.entries@.skip(i as int),
                    key@,
                ),
            decreases self.entries@.len() - i,
        {
            let e = &self.entries[i];
            if bytes_equal(e.key.as_slice(), key) {
                let v = copy_range(e.value.as_slice(), 0, e.value.len());
                proof {
                    assert(v@ =~= e.value@);
                }
                return Some(v);
            }
            proof {
                assert(self.entries@.skip(i as int).drop_first() =~= self.entries@.skip(i + 1));
            }
            i = i + 1;
        }
        None
    }
}

/// One object of the store, keyed by its 20-byte id.
pub struct ObjEntry {
    pub key: Vec<u8>,
    pub obj: RawObject,
}

/// First object stored under `key`, if any, as (kind, bytes).
pub open spec fn spec_obj_lookup(entries: Seq<ObjEntry>, key: Seq<u8>) -> Option<(ObjKind, Seq<u8>)>
    decreases entries.len(),
{
    if entries.len() == 0 {
        None
    } else if entries[0].key@ == key {
        Some((entries[0].obj.kind, entries[0].obj.data@))
    } else {
        spec_obj_lookup(entries.drop_first(), key)
    }
}

/// The external store and its side tables, passed in as an explicit handle:
/// raw objects, the three notes trees (per-commit metadata, generated
/// reverse index, file metadata), the manifest-generation results, and the
/// committish resolutions.
pub struct Store {
    pub objects: Vec<ObjEntry>,
    pub metadata_notes: NotesTree,
    pub reverse_notes: NotesTree,
    pub file_notes: NotesTree,
    pub manifests: Vec<NoteEntry>,
    pub committish: Vec<NoteEntry>,
}

impl Store {
    pub open spec fn lookup_object(&self, key: Seq<u8>) -> Option<(ObjKind, Seq<u8>)> {
        spec_obj_lookup(self.objects@, key)
    }

    pub open spec fn lookup_manifest(&self, key: Seq<u8>) -> Option<Seq<u8>> {
        spec_note_lookup(self.manifests@, key)
    }

    pub open spec fn lookup_committish(&self, key: Seq<u8>) -> Option<Seq<u8>> {
        spec_note_lookup(self.committish@, key)
    }

    pub fn new() -> (r: Store)
        ensures
            r.objects@.len() == 0,
            r.metadata_notes.entries@.len() == 0,
            r.reverse_notes.entries@.len() == 0,
            r.file_notes.entries@.len() == 0,
            r.manifests@.len() == 0,
            r.committish@.len() == 0,
    {
        Store {
            objects: Vec::new(),
            metadata_notes: NotesTree::new(),
            reverse_notes: NotesTree::new(),
            file_notes: NotesTree::new(),
            manifests: Vec::new(),
            committish: Vec::new(),
        }
    }

    pub fn add_object(&mut self, key: Vec<u8>, kind: ObjKind, data: Vec<u8>)
        ensures
            final(self).objects@ == old(self).objects@.push(
                ObjEntry { key, obj: RawObject { kind, data } },
            ),
            final(self).metadata_notes == old(self).metadata_notes,
            final(self).reverse_notes == old(self).reverse_notes,
            final(self).file_notes == old(self).file_notes,
            final(self).manifests == old(self).manifests,
            final(self).committish == old(self).committish,
    {
        self.objects.push(ObjEntry { key, obj: RawObject { kind, data } });
    }

    pub fn add_manifest(&mut self, key: Vec<u8>, value: Vec<u8>)
        ensures
            final(self).manifests@ == old(self).manifests@.push(NoteEntry { key, value }),
            final(self).objects == old(self).objects,
            final(self).metadata_notes == old(self).metadata_notes,
            final(self).reverse_notes == old(self).reverse_notes,
            final(self).file_notes == old(self).file_notes,
            final(self).committish == old(self).committish,
    {
        self.manifests.push(NoteEntry { key, value });
    }

    pub fn add_committish(&mut self, key: Vec<u8>, value: Vec<u8>)
        ensures
            final(self).committish@ == old(self).committish@.push(NoteEntry { key, value }),
            final(self).objects == old(self).objects,
            final(self).metadata_notes == old(self).metadata_notes,
            final(self).reverse_notes == old(self).reverse_notes,
            final(self).file_notes == old(self).file_notes,
            final(self).manifests == old(self).manifests,
    {
        self.committish.push(NoteEntry { key, value });
    }

    /// Read an object. Objects are immutable, so the result is an owned copy.
    #[verifier::loop_isolation(false)]
    pub fn read_object(&self, key: &[u8]) -> (r: Option<RawObject>)
        ensures
            match r {
                Some(o) => self.lookup_object(key@) == Some((o.kind, o.data@)),
                None => self.lookup_object(key@) is None,
            },
    {
        let mut i: usize = 0;
        proof {
            assert(self.objects@.skip(0) =~= self.objects@);
        }
        while i < self.objects.len()
            invariant
                i <= self.objects@.len(),
                spec_obj_lookup(self.objects@, key@) == spec_obj_lookup(
                    self.objects@.skip(i as int),
                    key@,
                ),
            decreases self.objects@.len() - i,
        {
            let e = &self.objects[i];
            if bytes_equal(e.key.as_slice(), key) {
                let data = copy_range(e.obj.data.as_slice(), 0, e.obj.data.len());
                proof {
                    assert(data@ =~= e.obj.data@);
                }
                return Some(RawObject { kind: e.obj.kind, data });
            }
            proof {
                assert(self.objects@.skip(i as int).drop_first() =~= self.objects@.skip(i + 1));
            }
            i = i + 1;
        }
        None
    }

    /// The external manifest-generation facility, modelled as a table.
    #[verifier::loop_isolation(false)]
    pub fn generate_manifest(&self, key: &[u8]) -> (r: Option<Vec<u8>>)
        ensures
            match r {
                Some(v) => self.lookup_manifest(key@) == Some(v@),
                None => self.lookup_manifest(key@) is None,
            },
    {
        let mut i: usize = 0;
        proof {
            assert(self.manifests@.skip(0) =~= self.manifests@);
        }
        while i < self.manifests.len()
            invariant
                i <= self.manifests@.len(),
                spec_note_lookup(self.manifests@, key@) == spec_note_lookup(
                    self.manifests@.skip(i as int),
                    key@,
                ),
            decreases self.manifests@.len() - i,
        {
            let e = &self.manifests[i];
            if bytes_equal(e.key.as_slice(), key) {
                let v = copy_range(e.value.as_slice(), 0, e.value.len());
                proof {
                    assert(v@ =~= e.value@);
                }
                return Some(v);
            }
            proof {
                assert(self.manifests@.skip(i as int).drop_first() =~= self.manifests@.skip(i + 1));
            }
            i = i + 1;
        }
        None
    }

    /// General revision-expression resolution, modelled as a table.
    #[verifier::loop_isolation(false)]
    pub fn resolve_committish(&self, expr: &[u8]) -> (r: Option<Vec<u8>>)
        ensures
            match r {
                Some(v) => self.lookup_committish(expr@) == Some(v@),
                None => self.lookup_committish(expr@) is None,
            },
    {
        let mut i: usize = 0;
        proof {
            assert(self.committish@.skip(0) =~= self.committish@);
        }
        while i < self.committish.len()
            invariant
                i <= self.committish@.len(),
                spec_note_lookup(self.committish@, expr@) == spec_note_lookup(
                    self.committish@.skip(i as int),
                    expr@,
                ),
            decreases self.committish@.len() - i,
        {
            let e = &self.committish[i];
            if bytes_equal(e.key.as_slice(), expr) {
                let v = copy_range(e.value.as_slice(), 0, e.value.len());
                proof {
                    assert(v@ =~= e.value@);
                }
                return Some(v);
            }
            proof {
                assert(self.committish@.skip(i as int).drop_first() =~= self.committish@.skip(
                    i + 1,
                ));
            }
            i = i + 1;
        }
        None
    }
}

} // verus!
