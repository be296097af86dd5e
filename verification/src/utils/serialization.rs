//! Verified helpers for building and taking apart byte strings.

use vstd::prelude::*;

verus! {

/// Byte-for-byte copy of a byte vector.
pub fn clone_bytes(v: &Vec<u8>) -> (r: Vec<u8>)
    ensures
        r@ == v@,
{
    let mut r: Vec<u8> = Vec::new();
    let mut i: usize = 0;
    while i < v.len()
        invariant
            i <= v@.len(),
            r@ == v@.subrange(0, i as int),
        decreases v@.len() - i,
    {
        r.push(v[i]);
        i += 1;
    }
    assert(v@.subrange(0, v@.len() as int) =~= v@);
    r
}

/// Byte-for-byte comparison of two byte vectors.
pub fn bytes_eq(a: &Vec<u8>, b: &Vec<u8>) -> (r: bool)
    ensures
        r == (a@ == b@),
{
    if a.len() != b.len() {
        return false;
    }
    let mut i: usize = 0;
    while i < a.len()
        invariant
            i <= a@.len(),
            a@.len() == b@.len(),
            forall|j: int| 0 <= j < i ==> a@[j] == b@[j],
        decreases a@.len() - i,
    {
        if a[i] != b[i] {
            return false;
        }
        i += 1;
    }
    assert(a@ =~= b@);
    true
}

/// The concatenation of a sequence of byte strings.
pub open spec fn flatten_bytes(s: Seq<Seq<u8>>) -> Seq<u8>
    decreases s.len(),
{
    if s.len() == 0 {
        Seq::<u8>::empty()
    } else {
        s[0] + flatten_bytes(s.drop_first())
    }
}

/// The `count` byte strings of `sz` bytes each that sit in `bytes` starting
/// at offset `off`.
pub open spec fn chunk_views(bytes: Seq<u8>, off: int, sz: int, count: int) -> Seq<Seq<u8>> {
    Seq::new(count as nat, |i: int| bytes.subrange(off + i * sz, off + i * sz + sz))
}

/// Appending one string to the sequence appends its bytes to the
/// concatenation.
pub proof fn lemma_flatten_bytes_push(s: Seq<Seq<u8>>, x: Seq<u8>)
    ensures
        flatten_bytes(s.push(x)) == flatten_bytes(s) + x,
    decreases s.len(),
{
    assert(flatten_bytes(s.push(x)) == s.push(x)[0] + flatten_bytes(s.push(x).drop_first()));
    if s.len() == 0 {
        assert(s.push(x).drop_first() =~= Seq::<Seq<u8>>::empty());
        assert(s.push(x)[0] == x);
        assert(flatten_bytes(Seq::<Seq<u8>>::empty()) == Seq::<u8>::empty());
        assert(flatten_bytes(s.push(x)) =~= flatten_bytes(s) + x);
    } else {
        assert(s.push(x).drop_first() =~= s.drop_first().push(x));
        assert(s.push(x)[0] == s[0]);
        lemma_flatten_bytes_push(s.drop_first(), x);
        assert(flatten_bytes(s) == s[0] + flatten_bytes(s.drop_first()));
        assert(s[0] + (flatten_bytes(s.drop_first()) + x) =~= (s[0] + flatten_bytes(
            s.drop_first())) + x);
    }
}

/// The concatenation of `count` strings of `sz` bytes each has `count * sz`
/// bytes.
pub proof fn lemma_flatten_bytes_len(s: Seq<Seq<u8>>, sz: int)
    requires
        forall|i: int| 0 <= i < s.len() ==> (#[trigger] s[i]).len() == sz,
    ensures
        flatten_bytes(s).len() == s.len() * sz,
    decreases s.len(),
{
    if s.len() == 0 {
    } else {
        lemma_flatten_bytes_len(s.drop_first(), sz);
        assert(s.len() * sz == sz + (s.len() - 1) * sz) by (nonlinear_arith);
    }
}

/// Each string of the concatenation is recovered by taking its range of
/// bytes back out.
pub proof fn lemma_flatten_bytes_index(s: Seq<Seq<u8>>, sz: int, i: int)
    requires
        forall|k: int| 0 <= k < s.len() ==> (#[trigger] s[k]).len() == sz,
        0 <= i < s.len(),
        sz >= 0,
    ensures
        flatten_bytes(s).subrange(i * sz, i * sz + sz) == s[i],
    decreases i,
{
    lemma_flatten_bytes_len(s, sz);
    assert(flatten_bytes(s) == s[0] + flatten_bytes(s.drop_first()));
    lemma_flatten_bytes_len(s.drop_first(), sz);
    if i == 0 {
        assert(i * sz == 0) by (nonlinear_arith)
            requires
                i == 0,
        ;
        assert(flatten_bytes(s).subrange(0, sz) =~= s[0]);
    } else {
        lemma_flatten_bytes_index(s.drop_first(), sz, i - 1);
        lemma_flatten_bytes_len(s.drop_first(), sz);
        assert(i * sz == sz + (i - 1) * sz) by (nonlinear_arith);
        assert(i * sz + sz == sz + ((i - 1) * sz + sz)) by (nonlinear_arith);
        assert((i - 1) * sz >= 0) by (nonlinear_arith)
            requires
                i >= 1,
                sz >= 0,
        ;
        assert((i - 1) * sz + sz <= flatten_bytes(s.drop_first()).len()) by {
            assert(flatten_bytes(s.drop_first()).len() == (s.len() - 1) * sz);
            assert((i - 1) * sz + sz <= (s.len() - 1) * sz) by (nonlinear_arith)
                requires
                    i < s.len(),
                    sz >= 0,
            ;
        }
        assert(i * sz >= sz) by (nonlinear_arith)
            requires
                i >= 1,
                sz >= 0,
        ;
        assert(i * sz + sz <= s.len() * sz) by (nonlinear_arith)
            requires
                i < s.len(),
                sz >= 0,
        ;
        assert(flatten_bytes(s).len() == sz + flatten_bytes(s.drop_first()).len());
        assert(flatten_bytes(s).subrange(i * sz, i * sz + sz) =~= flatten_bytes(
            s.drop_first()).subrange((i - 1) * sz, (i - 1) * sz + sz));
        assert(flatten_bytes(s.drop_first()).subrange((i - 1) * sz, (i - 1) * sz + sz) == s.drop_first()[
            i - 1]);
        assert(s.drop_first()[i - 1] == s[i]);
    }
    assert(flatten_bytes(s).subrange(i * sz, i * sz + sz) == s[i]);
}

/// Copies a byte slice into a fresh vector.
pub fn slice_to_vec(s: &[u8]) -> (r: Vec<u8>)
    ensures
        r@ == s@,
{
    let mut r: Vec<u8> = Vec::new();
    let mut i: usize = 0;
    while i < s.len()
        invariant
            i <= s@.len(),
            r@ == s@.subrange(0, i as int),
        decreases s@.len() - i,
    {
        r.push(s[i]);
        i += 1;
    }
    assert(s@.subrange(0, s@.len() as int) =~= s@);
    r
}

/// Appends all of `src` to `dst`.
pub fn append_bytes(dst: &mut Vec<u8>, src: &Vec<u8>)
    ensures
        final(dst)@ == old(dst)@ + src@,
{
    let mut i: usize = 0;
    while i < src.len()
        invariant
            i <= src@.len(),
            dst@ == old(dst)@ + src@.subrange(0, i as int),
        decreases src@.len() - i,
    {
        dst.push(src[i]);
        assert(old(dst)@ + src@.subrange(0, i as int) + seq![src@[i as int]] =~= old(dst)@
            + src@.subrange(0, i + 1));
        i += 1;
    }
    assert(old(dst)@ + src@.subrange(0, src@.len() as int) =~= old(dst)@ + src@);
}

/// Copies the bytes of `v` between `start` (inclusive) and `end` (exclusive).
pub fn sub_bytes(v: &Vec<u8>, start: usize, end: usize) -> (r: Vec<u8>)
    requires
        start <= end <= v@.len(),
    ensures
        r@ == v@.subrange(start as int, end as int),
{
    let mut r: Vec<u8> = Vec::new();
    let mut i: usize = start;
    while i < end
        invariant
            start <= i <= end <= v@.len(),
            r@ == v@.subrange(start as int, i as int),
        decreases end - i,
    {
        r.push(v[i]);
        assert(v@.subrange(start as int, i as int) + seq![v@[i as int]] =~= v@.subrange(
            start as int, i + 1));
        i += 1;
    }
    r
}

} // verus!
