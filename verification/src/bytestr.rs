use vstd::prelude::*;

verus! {

/// The ASCII whitespace bytes the style parser trims.
pub open spec fn is_space(c: u8) -> bool {
    c == 32 || c == 9 || c == 10 || c == 13
}

fn is_space_byte(c: u8) -> (r: bool)
    ensures
        r == is_space(c),
{
    c == 32 || c == 9 || c == 10 || c == 13
}

/// True exactly when the two byte strings hold the same bytes.
pub fn bytes_eq(a: &Vec<u8>, b: &Vec<u8>) -> (r: bool)
    ensures
        r == (a@ == b@),
{
    if a.len() != b.len() {
        return false;
    }
    let mut i: usize = 0;
    while i < a.len()
        invariant
            i <= a.len(),
            a.len() == b.len(),
            forall|j: int| 0 <= j < i ==> a@[j] == b@[j],
        decreases a.len() - i,
    {
        if a[i] != b[i] {
            return false;
        }
        i += 1;
    }
    proof {
        assert(a@ =~= b@);
    }
    true
}

/// A fresh copy of a byte string.
pub fn copy_bytes(v: &Vec<u8>) -> (r: Vec<u8>)
    ensures
        r@ == v@,
{
    let mut r: Vec<u8> = Vec::new();
    let mut i: usize = 0;
    while i < v.len()
        invariant
            i <= v.len(),
            r@ =~= v@.take(i as int),
        decreases v.len() - i,
    {
        r.push(v[i]);
        i += 1;
    }
    proof {
        assert(r@ =~= v@);
    }
    r
}

/// A fresh copy of the range `from..to` of a byte string.
pub fn subvec(v: &Vec<u8>, from: usize, to: usize) -> (r: Vec<u8>)
    requires
        from <= to <= v@.len(),
    ensures
        r@ == v@.subrange(from as int, to as int),
{
    let mut r: Vec<u8> = Vec::new();
    let mut i: usize = from;
    while i < to
        invariant
            from <= i <= to <= v@.len(),
            r@ =~= v@.subrange(from as int, i as int),
        decreases to - i,
    {
        r.push(v[i]);
        i += 1;
    }
    proof {
        assert(r@ =~= v@.subrange(from as int, to as int));
    }
    r
}

/// A byte string with its leading and trailing ASCII whitespace removed.
pub open spec fn trim_m(s: Seq<u8>) -> Seq<u8>
    decreases s.len(),
{
    if s.len() > 0 && is_space(s.first()) {
        trim_m(s.skip(1))
    } else if s.len() > 0 && is_space(s.last()) {
        trim_m(s.take(s.len() - 1))
    } else {
        s
    }
}

fn trim_owned(v: Vec<u8>) -> (r: Vec<u8>)
    ensures
        r@ == trim_m(v@),
    decreases v@.len(),
{
    if v.len() > 0 && is_space_byte(v[0]) {
        trim_owned(subvec(&v, 1, v.len()))
    } else if v.len() > 0 && is_space_byte(v[v.len() - 1]) {
        trim_owned(subvec(&v, 0, v.len() - 1))
    } else {
        v
    }
}

/// Trims leading and trailing ASCII whitespace, exactly as `trim_m`
/// describes.
pub fn trim_bytes(v: &Vec<u8>) -> (r: Vec<u8>)
    ensures
        r@ == trim_m(v@),
{
    trim_owned(copy_bytes(v))
}

/// The pieces of `s` between occurrences of `sep`, scanning from position
/// `cur` with the current piece having started at `start`.
pub open spec fn split_from_m(s: Seq<u8>, sep: u8, start: int, cur: int) -> Seq<Seq<u8>>
    decreases s.len() - cur,
{
    if cur >= s.len() || cur < 0 {
        seq![s.subrange(start, s.len() as int)]
    } else if s[cur] == sep {
        seq![s.subrange(start, cur)] + split_from_m(s, sep, cur + 1, cur + 1)
    } else {
        split_from_m(s, sep, start, cur + 1)
    }
}

/// The pieces of `s` separated by `sep`: always one more piece than there
/// are separators, so an empty string yields one empty piece.
pub open spec fn split_bytes_m(s: Seq<u8>, sep: u8) -> Seq<Seq<u8>> {
    split_from_m(s, sep, 0, 0)
}

/// The byte strings a sequence of byte vectors holds.
pub open spec fn vecs_model(vs: Seq<Vec<u8>>) -> Seq<Seq<u8>> {
    vs.map_values(|v: Vec<u8>| v@)
}

pub proof fn lemma_vecs_model_push(vs: Seq<Vec<u8>>, v: Vec<u8>)
    ensures
        vecs_model(vs.push(v)) =~= vecs_model(vs).push(v@),
{
}

/// Splits a byte string on a separator, exactly as `split_bytes_m`
/// describes.
pub fn split_bytes(v: &Vec<u8>, sep: u8) -> (r: Vec<Vec<u8>>)
    ensures
        vecs_model(r@) == split_bytes_m(v@, sep),
{
    let mut r: Vec<Vec<u8>> = Vec::new();
    let mut start: usize = 0;
    let mut cur: usize = 0;
    proof {
        assert(vecs_model(Seq::<Vec<u8>>::empty()) =~= Seq::<Seq<u8>>::empty());
    }
    while cur < v.len()
        invariant
            start <= cur <= v@.len(),
            split_bytes_m(v@, sep) == vecs_model(r@) + split_from_m(
                v@,
                sep,
                start as int,
                cur as int,
            ),
        decreases v@.len() - cur,
    {
        if v[cur] == sep {
            let piece = subvec(v, start, cur);
            proof {
                lemma_vecs_model_push(r@, piece);
                assert(vecs_model(r@.push(piece)) + split_from_m(v@, sep, cur + 1, cur + 1) =~= (
                vecs_model(r@) + (seq![v@.subrange(start as int, cur as int)] + split_from_m(
                    v@,
                    sep,
                    cur + 1,
                    cur + 1,
                ))));
            }
            r.push(piece);
            start = cur + 1;
        }
        cur += 1;
    }
    let piece = subvec(v, start, v.len());
    proof {
        lemma_vecs_model_push(r@, piece);
        assert(vecs_model(r@.push(piece)) =~= vecs_model(r@) + seq![v@.subrange(
            start as int,
            v@.len() as int,
        )]);
    }
    r.push(piece);
    r
}

} // verus!
