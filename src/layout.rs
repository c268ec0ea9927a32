use vstd::prelude::*;

verus! {

/// The three fields (S, I, R) of a flattened state: the first third, the
/// second third, and whatever follows.
pub open spec fn three_fields<T>(v: Seq<T>) -> (Seq<T>, Seq<T>, Seq<T>) {
    let n = v.len() / 3;
    (v.subrange(0, n as int), v.subrange(n as int, 2 * n as int), v.subrange(2 * n as int, v.len() as int))
}

/// The two fields (S, Z) of a flattened state: the first half and the rest.
pub open spec fn two_fields<T>(v: Seq<T>) -> (Seq<T>, Seq<T>) {
    let n = v.len() / 2;
    (v.subrange(0, n as int), v.subrange(n as int, v.len() as int))
}

/// Borrows the S, I and R fields of a flattened state vector, without copying.
pub fn view_three_fields<T>(v: &[T]) -> (r: (&[T], &[T], &[T]))
    ensures
        (r.0@, r.1@, r.2@) == three_fields(v@),
{
    let n = v.len() / 3;
    let (s, rest) = v.split_at(n);
    let (i, r) = rest.split_at(n);
    proof {
        assert(i@ =~= v@.subrange(n as int, 2 * n as int));
        assert(r@ =~= v@.subrange(2 * n as int, v@.len() as int));
    }
    (s, i, r)
}

/// Borrows the S and Z fields of a flattened state vector, without copying.
pub fn view_two_fields<T>(v: &[T]) -> (r: (&[T], &[T]))
    ensures
        (r.0@, r.1@) == two_fields(v@),
{
    let n = v.len() / 2;
    v.split_at(n)
}

/// Appends a copy of every element of `src` to `dst`.
fn append_copy<T: Copy>(dst: &mut Vec<T>, src: &[T])
    requires
        old(dst)@.len() + src@.len() <= usize::MAX,
    ensures
        final(dst)@ == old(dst)@ + src@,
{
    let ghost start = dst@;
    let len = src.len();
    for k in 0..len
        invariant
            len == src@.len(),
            dst@ == start + src@.subrange(0, k as int),
    {
        dst.push(src[k]);
        assert(src@.subrange(0, k + 1) =~= src@.subrange(0, k as int).push(src@[k as int]));
    }
    assert(src@.subrange(0, len as int) =~= src@);
}

/// Copies the fields S, I and R, in this order, into one flat state vector.
pub fn flatten_three_fields<T: Copy>(s: &[T], i: &[T], r: &[T]) -> (v: Vec<T>)
    requires
        s@.len() + i@.len() + r@.len() <= usize::MAX,
    ensures
        v@ == s@ + i@ + r@,
{
    let mut v: Vec<T> = Vec::new();
    append_copy(&mut v, s);
    append_copy(&mut v, i);
    append_copy(&mut v, r);
    assert(Seq::<T>::empty() + s@ =~= s@);
    v
}

/// Copies the fields S and Z, in this order, into one flat state vector.
pub fn flatten_two_fields<T: Copy>(s: &[T], z: &[T]) -> (v: Vec<T>)
    requires
        s@.len() + z@.len() <= usize::MAX,
    ensures
        v@ == s@ + z@,
{
    let mut v: Vec<T> = Vec::new();
    append_copy(&mut v, s);
    append_copy(&mut v, z);
    assert(Seq::<T>::empty() + s@ =~= s@);
    v
}

/// Flattening three fields of equal length and viewing the result as fields
/// gives back exactly the same fields.
pub proof fn lemma_three_fields_round_trip<T>(s: Seq<T>, i: Seq<T>, r: Seq<T>)
    requires
        s.len() == i.len(),
        i.len() == r.len(),
    ensures
        three_fields(s + i + r) == (s, i, r),
{
    let v = s + i + r;
    assert(v.len() / 3 == s.len());
    assert(v.subrange(0, s.len() as int) =~= s);
    assert(v.subrange(s.len() as int, 2 * s.len() as int) =~= i);
    assert(v.subrange(2 * s.len() as int, v.len() as int) =~= r);
}

/// Viewing a flat state as its three fields and flattening them again gives
/// back the same state.
pub proof fn lemma_three_fields_cover<T>(v: Seq<T>)
    ensures
        three_fields(v).0 + three_fields(v).1 + three_fields(v).2 == v,
{
    let (s, i, r) = three_fields(v);
    assert(s + i + r =~= v);
}

/// Flattening two fields of equal length and viewing the result as fields
/// gives back exactly the same fields.
pub proof fn lemma_two_fields_round_trip<T>(s: Seq<T>, z: Seq<T>)
    requires
        s.len() == z.len(),
    ensures
        two_fields(s + z) == (s, z),
{
    let v = s + z;
    assert(v.len() / 2 == s.len());
    assert(v.subrange(0, s.len() as int) =~= s);
    assert(v.subrange(s.len() as int, v.len() as int) =~= z);
}

/// Viewing a flat state as its two fields and flattening them again gives
/// back the same state.
pub proof fn lemma_two_fields_cover<T>(v: Seq<T>)
    ensures
        two_fields(v).0 + two_fields(v).1 == v,
{
    let (s, z) = two_fields(v);
    assert(s + z =~= v);
}

} // verus!
