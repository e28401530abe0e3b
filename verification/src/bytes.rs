//! Byte-sequence primitives: searching, splitting on a separator byte,
//! lexicographic comparison, sorting, and joining. These are the building
//! blocks for the line-oriented and null-separated encodings used by the
//! metadata records and the changeset assembly.

use vstd::prelude::*;

verus! {

/// Strict lexicographic order on byte sequences.
pub open spec fn lex_lt(a: Seq<u8>, b: Seq<u8>) -> bool
    decreases a.len(),
{
    if b.len() == 0 {
        false
    } else if a.len() == 0 {
        true
    } else if a[0] < b[0] {
        true
    } else if a[0] > b[0] {
        false
    } else {
        lex_lt(a.drop_first(), b.drop_first())
    }
}

pub open spec fn lex_le(a: Seq<u8>, b: Seq<u8>) -> bool {
    !lex_lt(b, a)
}

/// Split on every occurrence of `sep`, keeping empty fields, so that the
/// result always holds one more part than there are separators.
pub open spec fn spec_split(s: Seq<u8>, sep: u8) -> Seq<Seq<u8>>
    decreases s.len(),
{
    if s.len() == 0 {
        seq![Seq::<u8>::empty()]
    } else if s[0] == sep {
        seq![Seq::<u8>::empty()].add(spec_split(s.drop_first(), sep))
    } else {
        let rest = spec_split(s.drop_first(), sep);
        seq![seq![s[0]].add(rest[0])].add(rest.drop_first())
    }
}

/// Join parts with a single `sep` byte between neighbours.
pub open spec fn spec_join(parts: Seq<Seq<u8>>, sep: u8) -> Seq<u8>
    decreases parts.len(),
{
    if parts.len() == 0 {
        Seq::<u8>::empty()
    } else if parts.len() == 1 {
        parts[0]
    } else {
        spec_join(parts.drop_last(), sep).add(seq![sep]).add(parts.last())
    }
}

/// Insertion into a lexicographically sorted sequence of byte strings.
pub open spec fn spec_insert_sorted(x: Seq<u8>, s: Seq<Seq<u8>>) -> Seq<Seq<u8>>
    decreases s.len(),
{
    if s.len() == 0 {
        seq![x]
    } else if lex_le(x, s[0]) {
        seq![x].add(s)
    } else {
        seq![s[0]].add(spec_insert_sorted(x, s.drop_first()))
    }
}

/// Insertion sort of a sequence of byte strings, ascending by byte value.
pub open spec fn spec_sort(s: Seq<Seq<u8>>) -> Seq<Seq<u8>>
    decreases s.len(),
{
    if s.len() == 0 {
        s
    } else {
        spec_insert_sorted(s[0], spec_sort(s.drop_first()))
    }
}

pub proof fn lemma_split_len(s: Seq<u8>, sep: u8)
    ensures
        spec_split(s, sep).len() >= 1,
    decreases s.len(),
{
    if s.len() > 0 {
        lemma_split_len(s.drop_first(), sep);
    }
}

/// Splitting at the first separator: everything before it is the first part.
pub proof fn lemma_split_head(s: Seq<u8>, sep: u8, i: int)
    requires
        0 <= i < s.len(),
        s[i] == sep,
        forall|j: int| 0 <= j < i ==> s[j] != sep,
    ensures
        spec_split(s, sep) == seq![s.take(i)].add(spec_split(s.skip(i + 1), sep)),
    decreases i,
{
    lemma_split_len(s.drop_first(), sep);
    if i == 0 {
        assert(s.take(0) =~= Seq::<u8>::empty());
        assert(s.skip(1) =~= s.drop_first());
    } else {
        let t = s.drop_first();
        assert(t[i - 1] == sep);
        assert(forall|j: int| 0 <= j < i - 1 ==> t[j] != sep);
        lemma_split_head(t, sep, i - 1);
        let rest = spec_split(t, sep);
        assert(rest[0] == t.take(i - 1));
        assert(seq![s[0]].add(t.take(i - 1)) =~= s.take(i));
        assert(t.skip(i) =~= s.skip(i + 1));
        assert(rest.drop_first() == spec_split(s.skip(i + 1), sep));
        assert(spec_split(s, sep) =~= seq![s.take(i)].add(spec_split(s.skip(i + 1), sep)));
    }
}

/// A sequence without the separator splits into itself alone.
pub proof fn lemma_split_none(s: Seq<u8>, sep: u8)
    requires
        forall|j: int| 0 <= j < s.len() ==> s[j] != sep,
    ensures
        spec_split(s, sep) == seq![s],
    decreases s.len(),
{
    if s.len() == 0 {
        assert(s =~= Seq::<u8>::empty());
        assert(spec_split(s, sep) =~~= seq![s]);
    } else {
        lemma_split_none(s.drop_first(), sep);
        assert(seq![s[0]].add(s.drop_first()) =~= s);
        assert(spec_split(s, sep) =~~= seq![s]);
    }
}

/// Split at the first occurrence of `sep`: the part before it and the part
/// after it. `None` when `sep` does not occur.
pub open spec fn spec_split_first(s: Seq<u8>, sep: u8) -> Option<(Seq<u8>, Seq<u8>)>
    decreases s.len(),
{
    if s.len() == 0 {
        None
    } else if s[0] == sep {
        Some((Seq::<u8>::empty(), s.drop_first()))
    } else {
        match spec_split_first(s.drop_first(), sep) {
            None => None,
            Some((a, b)) => Some((seq![s[0]].add(a), b)),
        }
    }
}

pub proof fn lemma_split_first_at(s: Seq<u8>, sep: u8, i: int)
    requires
        0 <= i < s.len(),
        s[i] == sep,
        forall|j: int| 0 <= j < i ==> s[j] != sep,
    ensures
        spec_split_first(s, sep) == Some((s.take(i), s.skip(i + 1))),
    decreases i,
{
    if i == 0 {
        assert(s.take(0) =~= Seq::<u8>::empty());
        assert(s.skip(1) =~= s.drop_first());
    } else {
        let t = s.drop_first();
        lemma_split_first_at(t, sep, i - 1);
        assert(seq![s[0]].add(t.take(i - 1)) =~= s.take(i));
        assert(t.skip(i) =~= s.skip(i + 1));
    }
}

pub proof fn lemma_split_first_none(s: Seq<u8>, sep: u8)
    requires
        forall|j: int| 0 <= j < s.len() ==> s[j] != sep,
    ensures
        spec_split_first(s, sep) is None,
    decreases s.len(),
{
    if s.len() > 0 {
        lemma_split_first_none(s.drop_first(), sep);
    }
}

/// Split at the first occurrence of `sep`, if any.
pub fn split_first(s: &[u8], sep: u8) -> (r: Option<(Vec<u8>, Vec<u8>)>)
    ensures
        match r {
            Some(p) => spec_split_first(s@, sep) == Some((p.0@, p.1@)),
            None => spec_split_first(s@, sep) is None,
        },
{
    let n = s.len();
    match find_byte(s, sep) {
        Some(i) => {
            let a = copy_range(s, 0, i);
            let b = copy_range(s, i + 1, n);
            proof {
                lemma_split_first_at(s@, sep, i as int);
                assert(a@ =~= s@.take(i as int));
                assert(b@ =~= s@.skip(i + 1));
            }
            Some((a, b))
        },
        None => {
            proof {
                lemma_split_first_none(s@, sep);
            }
            None
        },
    }
}

/// Index of the first occurrence of `b` in `s`, if any.
pub fn find_byte(s: &[u8], b: u8) -> (r: Option<usize>)
    ensures
        match r {
            Some(i) => i < s@.len() && s@[i as int] == b && forall|j: int| 0 <= j < i ==> s@[j] != b,
            None => forall|j: int| 0 <= j < s@.len() ==> s@[j] != b,
        },
{
    let mut i: usize = 0;
    while i < s.len()
        invariant
            i <= s@.len(),
            forall|j: int| 0 <= j < i ==> s@[j] != b,
        decreases s@.len() - i,
    {
        if s[i] == b {
            return Some(i);
        }
        i = i + 1;
    }
    None
}

/// Index of the last occurrence of `b` in `s`, if any.
pub fn rfind_byte(s: &[u8], b: u8) -> (r: Option<usize>)
    ensures
        match r {
            Some(i) => i < s@.len() && s@[i as int] == b && forall|j: int| i < j < s@.len() ==> s@[j] != b,
            None => forall|j: int| 0 <= j < s@.len() ==> s@[j] != b,
        },
{
    let mut i: usize = s.len();
    while i > 0
        invariant
            i <= s@.len(),
            forall|j: int| i <= j < s@.len() ==> s@[j] != b,
        decreases i,
    {
        i = i - 1;
        if s[i] == b {
            return Some(i);
        }
    }
    None
}

pub fn bytes_equal(a: &[u8], b: &[u8]) -> (r: bool)
    ensures
        r == (a@ == b@),
{
    if a.len() != b.len() {
        proof {
            assert(a@ != b@);
        }
        return false;
    }
    let mut i: usize = 0;
    while i < a.len()
        invariant
            i <= a@.len(),
            a@.len() == b@.len(),
            forall|j: int| 0 <= j < i ==> a@[j] == b@[j],
        decreases a@.len() - i,
    {
        if a[i] != b[i] {
            proof {
                assert(a@ != b@);
            }
            return false;
        }
        i = i + 1;
    }
    proof {
        assert(a@ =~= b@);
    }
    true
}

/// Strict lexicographic comparison of two byte strings.
pub fn bytes_lt(a: &[u8], b: &[u8]) -> (r: bool)
    ensures
        r == lex_lt(a@, b@),
{
    let mut i: usize = 0;
    proof {
        assert(a@.skip(0) =~= a@);
        assert(b@.skip(0) =~= b@);
    }
    while i < a.len() && i < b.len()
        invariant
            i <= a@.len(),
            i <= b@.len(),
            forall|j: int| 0 <= j < i ==> a@[j] == b@[j],
            lex_lt(a@, b@) == lex_lt(a@.skip(i as int), b@.skip(i as int)),
        decreases a@.len() - i,
    {
        if a[i] < b[i] {
            assert(lex_lt(a@.skip(i as int), b@.skip(i as int)));
            return true;
        }
        if a[i] > b[i] {
            assert(!lex_lt(a@.skip(i as int), b@.skip(i as int)));
            return false;
        }
        proof {
            assert(a@.skip(i as int).drop_first() =~= a@.skip(i + 1));
            assert(b@.skip(i as int).drop_first() =~= b@.skip(i + 1));
        }
        i = i + 1;
    }
    proof {
        if i >= a@.len() {
            assert(a@.skip(i as int) =~= Seq::<u8>::empty());
        } else {
            assert(b@.skip(i as int) =~= Seq::<u8>::empty());
        }
    }
    i < b.len()
}

/// Append all of `src` to `dst`.
pub fn push_all(dst: &mut Vec<u8>, src: &[u8])
    ensures
        final(dst)@ == old(dst)@ + src@,
{
    let mut i: usize = 0;
    while i < src.len()
        invariant
            i <= src@.len(),
            dst@ == old(dst)@ + src@.take(i as int),
        decreases src@.len() - i,
    {
        dst.push(src[i]);
        proof {
            assert(old(dst)@ + src@.take(i as int) + seq![src@[i as int]] =~= old(dst)@ + src@.take(
                i + 1,
            ));
        }
        i = i + 1;
    }
    proof {
        assert(src@.take(src@.len() as int) =~= src@);
    }
}

/// Copy of the bytes of `s` in the range `start..end`.
pub fn copy_range(s: &[u8], start: usize, end: usize) -> (r: Vec<u8>)
    requires
        start <= end <= s@.len(),
    ensures
        r@ == s@.subrange(start as int, end as int),
{
    let mut r: Vec<u8> = Vec::new();
    push_all(&mut r, &s[start..end]);
    r
}

/// Split into the parts separated by `sep`, keeping empty fields.
pub fn split_all(s: &[u8], sep: u8) -> (r: Vec<Vec<u8>>)
    ensures
        r.deep_view() == spec_split(s@, sep),
{
    let mut parts: Vec<Vec<u8>> = Vec::new();
    let mut pos: usize = 0;
    proof {
        assert(s@.skip(0) =~= s@);
        assert(parts.deep_view() + spec_split(s@, sep) =~~= spec_split(s@, sep));
    }
    loop
        invariant
            pos <= s@.len(),
            spec_split(s@, sep) == parts.deep_view() + spec_split(s@.skip(pos as int), sep),
        decreases s@.len() - pos,
    {
        let rest = &s[pos..s.len()];
        proof {
            assert(rest@ =~= s@.skip(pos as int));
        }
        let ghost prev = parts.deep_view();
        match find_byte(rest, sep) {
            Some(i) => {
                let part = copy_range(rest, 0, i);
                proof {
                    assert(part@ =~= rest@.take(i as int));
                    lemma_split_head(rest@, sep, i as int);
                }
                parts.push(part);
                proof {
                    assert(parts.deep_view() =~~= prev.push(part@));
                    assert(rest@.skip(i + 1) =~= s@.skip(pos + i + 1));
                    assert(spec_split(s@, sep) =~~= parts.deep_view() + spec_split(
                        s@.skip(pos + i + 1),
                        sep,
                    ));
                }
                pos = pos + i + 1;
            },
            None => {
                let part = copy_range(rest, 0, rest.len());
                proof {
                    assert(part@ =~= rest@);
                    lemma_split_none(rest@, sep);
                }
                parts.push(part);
                proof {
                    assert(parts.deep_view() =~~= prev.push(part@));
                    assert(parts.deep_view() =~~= prev + spec_split(s@.skip(pos as int), sep));
                }
                return parts;
            },
        }
    }
}

/// Where an element lands in a sorted sequence: right before the first
/// element it is lexicographically at or below.
pub proof fn lemma_insert_sorted_at(x: Seq<u8>, s: Seq<Seq<u8>>, k: int)
    requires
        0 <= k <= s.len(),
        forall|j: int| 0 <= j < k ==> lex_lt(#[trigger] s[j], x),
        k < s.len() ==> lex_le(x, s[k]),
    ensures
        spec_insert_sorted(x, s) == s.take(k) + seq![x] + s.skip(k),
    decreases k,
{
    if k == 0 {
        assert(s.take(0) =~= Seq::<Seq<u8>>::empty());
        assert(s.skip(0) =~= s);
        assert(spec_insert_sorted(x, s) =~~= s.take(0) + seq![x] + s.skip(0));
    } else {
        assert(lex_lt(s[0], x));
        let t = s.drop_first();
        assert(forall|j: int| 0 <= j < k - 1 ==> lex_lt(#[trigger] t[j], x));
        lemma_insert_sorted_at(x, t, k - 1);
        assert(t.take(k - 1) =~= s.subrange(1, k));
        assert(t.skip(k - 1) =~= s.skip(k));
        assert(spec_insert_sorted(x, s) =~~= s.take(k) + seq![x] + s.skip(k));
    }
}

/// Insert `x` into a sorted list of byte strings, keeping it sorted.
pub fn insert_sorted_vec(sorted: &mut Vec<Vec<u8>>, x: Vec<u8>)
    ensures
        final(sorted).deep_view() == spec_insert_sorted(x@, old(sorted).deep_view()),
{
    let ghost dv = sorted.deep_view();
    let mut k: usize = 0;
    while k < sorted.len() && bytes_lt(sorted[k].as_slice(), x.as_slice())
        invariant
            k <= sorted@.len(),
            sorted@.len() == dv.len(),
            sorted.deep_view() == dv,
            forall|j: int| 0 <= j < k ==> lex_lt(#[trigger] dv[j], x@),
        decreases sorted@.len() - k,
    {
        proof {
            assert(dv[k as int] =~= sorted@[k as int]@);
        }
        k = k + 1;
    }
    proof {
        assert(k < dv.len() ==> dv[k as int] =~= sorted@[k as int]@);
        lemma_insert_sorted_at(x@, dv, k as int);
    }
    sorted.insert(k, x);
    proof {
        assert(sorted.deep_view() =~~= dv.take(k as int) + seq![x@] + dv.skip(k as int));
    }
}

/// Sort a list of byte strings ascending by byte value.
pub fn sort_byte_vecs(v: Vec<Vec<u8>>) -> (r: Vec<Vec<u8>>)
    ensures
        r.deep_view() == spec_sort(v.deep_view()),
{
    let ghost dv0 = v.deep_view();
    let mut v = v;
    let mut r: Vec<Vec<u8>> = Vec::new();
    proof {
        assert(v.deep_view() =~~= dv0.take(v@.len() as int));
        assert(dv0.skip(dv0.len() as int) =~= Seq::<Seq<u8>>::empty());
        assert(r.deep_view() =~~= spec_sort(dv0.skip(v@.len() as int)));
    }
    while v.len() > 0
        invariant
            v@.len() <= dv0.len(),
            v.deep_view() == dv0.take(v@.len() as int),
            r.deep_view() == spec_sort(dv0.skip(v@.len() as int)),
        decreases v@.len(),
    {
        let ghost n_old = v@.len() as int;
        let x = v.pop().unwrap();
        proof {
            assert(x@ =~= dv0.take(n_old)[n_old - 1]);
            assert(v.deep_view() =~~= dv0.take(n_old - 1));
        }
        insert_sorted_vec(&mut r, x);
        proof {
            let tail = dv0.skip(n_old - 1);
            assert(tail.len() > 0);
            assert(tail[0] == dv0[n_old - 1]);
            assert(tail.drop_first() =~= dv0.skip(n_old));
            assert(r.deep_view() =~~= spec_sort(dv0.skip(n_old - 1)));
        }
    }
    proof {
        assert(dv0.skip(0) =~= dv0);
    }
    r
}

/// Join parts with a single `sep` byte between neighbours.
pub fn join_with(parts: &Vec<Vec<u8>>, sep: u8) -> (r: Vec<u8>)
    ensures
        r@ == spec_join(parts.deep_view(), sep),
{
    let mut r: Vec<u8> = Vec::new();
    let mut i: usize = 0;
    while i < parts.len()
        invariant
            i <= parts@.len(),
            r@ == spec_join(parts.deep_view().take(i as int), sep),
        decreases parts@.len() - i,
    {
        if i > 0 {
            r.push(sep);
        }
        push_all(&mut r, parts[i].as_slice());
        proof {
            let dv = parts.deep_view();
            assert(dv[i as int] =~= parts@[i as int]@);
            assert(dv.take(i + 1).drop_last() =~= dv.take(i as int));
            assert(dv.take(i + 1).last() == dv[i as int]);
            if i == 0 {
                assert(spec_join(dv.take(1), sep) == dv[0]);
                assert(r@ =~= dv[0]);
            }
        }
        i = i + 1;
    }
    proof {
        assert(parts.deep_view().take(parts@.len() as int) =~= parts.deep_view());
    }
    r
}

} // verus!
