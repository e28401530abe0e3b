//! The header of a source commit object: raw bytes split at the first
//! blank line into header and body; header lines are `key value` pairs,
//! with `parent` lines collected in encounter order and exactly one
//! `author` and one `committer` line required (a repeated line keeps its
//! last occurrence; unrecognized header lines are ignored).

use vstd::prelude::*;

use crate::bytes::{copy_range, spec_split, spec_split_first, split_all, split_first};
use crate::digits::spec_hex_decode;
use crate::errors::DumpError;
use crate::hashes::ObjectId;
use crate::metadata::{key_author, valid_hash_hex};

verus! {

pub open spec fn key_parent() -> Seq<u8> {
    seq![112u8, 97u8, 114u8, 101u8, 110u8, 116u8]
}

pub open spec fn key_committer() -> Seq<u8> {
    seq![99u8, 111u8, 109u8, 109u8, 105u8, 116u8, 116u8, 101u8, 114u8]
}

/// Index of the first blank line: the first `i` with a newline at `i` and
/// at `i + 1`.
pub open spec fn spec_find_blank(s: Seq<u8>) -> Option<int>
    decreases s.len(),
{
    if s.len() < 2 {
        None
    } else if s[0] == 10 && s[1] == 10 {
        Some(0)
    } else {
        match spec_find_blank(s.drop_first()) {
            None => None,
            Some(i) => Some(i + 1),
        }
    }
}

pub proof fn lemma_find_blank_at(s: Seq<u8>, i: int)
    requires
        0 <= i,
        i + 1 < s.len(),
        s[i] == 10 && s[i + 1] == 10,
        forall|j: int| 0 <= j < i ==> !(#[trigger] s[j] == 10 && s[j + 1] == 10),
    ensures
        spec_find_blank(s) == Some(i),
    decreases i,
{
    if i > 0 {
        let t = s.drop_first();
        assert(forall|j: int| 0 <= j < i - 1 ==> !(#[trigger] t[j] == 10 && t[j + 1] == 10));
        lemma_find_blank_at(t, i - 1);
    }
}

pub proof fn lemma_find_blank_none(s: Seq<u8>)
    requires
        forall|j: int| 0 <= j && j + 1 < s.len() ==> !(#[trigger] s[j] == 10 && s[j + 1] == 10),
    ensures
        spec_find_blank(s) is None,
    decreases s.len(),
{
    if s.len() >= 2 {
        lemma_find_blank_none(s.drop_first());
    }
}

/// Find the first blank line.
pub fn find_blank(s: &[u8]) -> (r: Option<usize>)
    ensures
        match r {
            Some(i) => i + 1 < s@.len() && spec_find_blank(s@) == Some(i as int),
            None => spec_find_blank(s@) is None,
        },
{
    if s.len() < 2 {
        proof {
            lemma_find_blank_none(s@);
        }
        return None;
    }
    let mut i: usize = 0;
    while i < s.len() - 1
        invariant
            s@.len() >= 2,
            i + 1 <= s@.len(),
            forall|j: int| 0 <= j < i ==> !(#[trigger] s@[j] == 10 && s@[j + 1] == 10),
        decreases s@.len() - i,
    {
        if s[i] == 10 && s[i + 1] == 10 {
            proof {
                lemma_find_blank_at(s@, i as int);
            }
            return Some(i);
        }
        i = i + 1;
    }
    proof {
        lemma_find_blank_none(s@);
    }
    None
}

/// Parser state for the header lines.
pub struct CommitAcc {
    pub parents: Seq<Seq<u8>>,
    pub author: Option<Seq<u8>>,
    pub committer: Option<Seq<u8>>,
}

pub open spec fn spec_commit_acc0() -> CommitAcc {
    CommitAcc { parents: Seq::empty(), author: None, committer: None }
}

/// Effect of one header line on the parser state.
pub open spec fn spec_commit_step(acc: CommitAcc, line: Seq<u8>) -> Option<CommitAcc> {
    match spec_split_first(line, 32) {
        None => None,
        Some((key, value)) => if key == key_parent() {
            if valid_hash_hex(value) {
                Some(CommitAcc { parents: acc.parents.push(spec_hex_decode(value)), ..acc })
            } else {
                None
            }
        } else if key == key_author() {
            Some(CommitAcc { author: Some(value), ..acc })
        } else if key == key_committer() {
            Some(CommitAcc { committer: Some(value), ..acc })
        } else {
            Some(acc)
        },
    }
}

/// Fold over the header lines, stopping at an empty line.
pub open spec fn spec_commit_lines(lines: Seq<Seq<u8>>, acc: CommitAcc) -> Option<CommitAcc>
    decreases lines.len(),
{
    if lines.len() == 0 {
        Some(acc)
    } else if lines[0].len() == 0 {
        Some(acc)
    } else {
        match spec_commit_step(acc, lines[0]) {
            None => None,
            Some(a) => spec_commit_lines(lines.drop_first(), a),
        }
    }
}

/// The parsed commit: parents in encounter order, the two authorship
/// lines, and the free-form body.
pub struct CommitView {
    pub parents: Seq<Seq<u8>>,
    pub author: Seq<u8>,
    pub committer: Seq<u8>,
    pub body: Seq<u8>,
}

pub open spec fn spec_parse_commit(raw: Seq<u8>) -> Option<CommitView> {
    match spec_find_blank(raw) {
        None => None,
        Some(i) => match spec_commit_lines(spec_split(raw.take(i), 10), spec_commit_acc0()) {
            None => None,
            Some(acc) => match acc.author {
                None => None,
                Some(a) => match acc.committer {
                    None => None,
                    Some(c) => Some(
                        CommitView {
                            parents: acc.parents,
                            author: a,
                            committer: c,
                            body: raw.skip(i + 2),
                        },
                    ),
                },
            },
        },
    }
}

pub open spec fn ids_deep(s: Seq<ObjectId>) -> Seq<Seq<u8>> {
    Seq::new(s.len(), |i: int| s[i]@)
}

/// The parsed header of a source commit object.
pub struct CommitHeader {
    pub parents: Vec<ObjectId>,
    pub author: Vec<u8>,
    pub committer: Vec<u8>,
    pub body: Vec<u8>,
}

impl CommitHeader {
    pub open spec fn wf(&self) -> bool {
        forall|i: int| 0 <= i < self.parents@.len() ==> (#[trigger] self.parents@[i]).wf()
    }

    pub open spec fn view_commit(&self) -> CommitView {
        CommitView {
            parents: ids_deep(self.parents@),
            author: self.author@,
            committer: self.committer@,
            body: self.body@,
        }
    }
}

fn key_parent_vec() -> (r: Vec<u8>)
    ensures
        r@ == key_parent(),
{
    let r: Vec<u8> = vec![112u8, 97u8, 114u8, 101u8, 110u8, 116u8];
    proof {
        assert(r@ =~= key_parent());
    }
    r
}

fn key_author_vec() -> (r: Vec<u8>)
    ensures
        r@ == key_author(),
{
    let r: Vec<u8> = vec![97u8, 117u8, 116u8, 104u8, 111u8, 114u8];
    proof {
        assert(r@ =~= key_author());
    }
    r
}

fn key_committer_vec() -> (r: Vec<u8>)
    ensures
        r@ == key_committer(),
{
    let r: Vec<u8> = vec![99u8, 111u8, 109u8, 109u8, 105u8, 116u8, 116u8, 101u8, 114u8];
    proof {
        assert(r@ =~= key_committer());
    }
    r
}

/// Parse the raw bytes of a source commit object.
#[verifier::loop_isolation(false)]
pub fn parse_commit(raw: &[u8]) -> (r: Result<CommitHeader, DumpError>)
    ensures
        match r {
            Ok(c) => c.wf() && spec_parse_commit(raw@) == Some(c.view_commit()),
            Err(e) => e == DumpError::CorruptIndex && spec_parse_commit(raw@) is None,
        },
{
    let blank = match find_blank(raw) {
        Some(i) => i,
        None => {
            return Err(DumpError::CorruptIndex);
        },
    };
    let n = raw.len();
    let header = copy_range(raw, 0, blank);
    let body = copy_range(raw, blank + 2, n);
    proof {
        assert(header@ =~= raw@.take(blank as int));
        assert(body@ =~= raw@.skip(blank + 2));
    }
    let lines = split_all(header.as_slice(), 10);
    let ghost lv = lines.deep_view();
    let mut parents: Vec<ObjectId> = Vec::new();
    let mut author: Option<Vec<u8>> = None;
    let mut committer: Option<Vec<u8>> = None;
    let mut i: usize = 0;
    proof {
        assert(lv.skip(0) =~= lv);
        assert(ids_deep(parents@) =~= Seq::<Seq<u8>>::empty());
    }
    while i < lines.len()
        invariant
            i <= lines@.len(),
            lines@.len() == lv.len(),
            forall|k: int| 0 <= k < lv.len() ==> lv[k] == lines@[k]@,
            forall|k: int| 0 <= k < parents@.len() ==> (#[trigger] parents@[k]).wf(),
            spec_commit_lines(lv, spec_commit_acc0()) == spec_commit_lines(
                lv.skip(i as int),
                CommitAcc {
                    parents: ids_deep(parents@),
                    author: crate::metadata::opt_view(author),
                    committer: crate::metadata::opt_view(committer),
                },
            ),
        decreases lines@.len() - i,
    {
        let ghost acc_in = CommitAcc {
            parents: ids_deep(parents@),
            author: crate::metadata::opt_view(author),
            committer: crate::metadata::opt_view(committer),
        };
        let line = &lines[i];
        proof {
            assert(lv.skip(i as int)[0] == line@);
            assert(lv.skip(i as int).drop_first() =~= lv.skip(i + 1));
        }
        if line.len() == 0 {
            break ;
        }
        let (key, value) = match split_first(line.as_slice(), 32) {
            Some(p) => p,
            None => {
                return Err(DumpError::CorruptIndex);
            },
        };
        if crate::bytes::bytes_equal(key.as_slice(), key_parent_vec().as_slice()) {
            match ObjectId::from_hex(value.as_slice()) {
                Some(id) => {
                    let ghost old_parents = parents@;
                    parents.push(id);
                    proof {
                        assert(ids_deep(parents@) =~= ids_deep(old_parents).push(id@));
                    }
                },
                None => {
                    return Err(DumpError::CorruptIndex);
                },
            }
        } else if crate::bytes::bytes_equal(key.as_slice(), key_author_vec().as_slice()) {
            author = Some(value);
        } else if crate::bytes::bytes_equal(key.as_slice(), key_committer_vec().as_slice()) {
            committer = Some(value);
        }
        proof {
            let acc_out = CommitAcc {
                parents: ids_deep(parents@),
                author: crate::metadata::opt_view(author),
                committer: crate::metadata::opt_view(committer),
            };
            assert(spec_commit_step(acc_in, line@) == Some(acc_out));
        }
        i = i + 1;
    }
    proof {
        if i == lines@.len() {
            assert(lv.skip(lv.len() as int) =~= Seq::<Seq<u8>>::empty());
        }
    }
    let a = match author {
        Some(a) => a,
        None => {
            return Err(DumpError::CorruptIndex);
        },
    };
    let c = match committer {
        Some(c) => c,
        None => {
            return Err(DumpError::CorruptIndex);
        },
    };
    Ok(CommitHeader { parents, author: a, committer: c, body })
}

} // verus!
