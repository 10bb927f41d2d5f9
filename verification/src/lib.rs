//! Obtain several exclusive references into one buffer at once.
//!
//! Handing out one `&mut` into a buffer normally forbids handing out any
//! other reference into the same buffer at the same time.  This crate
//! resolves that by checking, up front, that a requested list of positions
//! is in bounds and pairwise distinct; under that proof the positions
//! cannot alias, and one exclusive reference per position can be produced
//! simultaneously.

use vstd::prelude::*;

verus! {

/// Every position in `indices` up to rank `k` lies strictly below `len`.
pub open spec fn in_bounds_upto(indices: Seq<usize>, len: nat, k: int) -> bool {
    forall|a: int| 0 <= a < k ==> (#[trigger] indices[a]) < len
}

/// No two positions in `indices` at ranks below `k` are equal.
pub open spec fn distinct_upto(indices: Seq<usize>, k: int) -> bool {
    forall|a: int, b: int| 0 <= a < b < k ==> indices[a] != indices[b]
}

/// The sole precondition that makes handing out simultaneous exclusive
/// references sound: every position is in bounds for a sequence of length
/// `len`, and all positions are pairwise distinct.
pub open spec fn valid_indices(indices: Seq<usize>, len: nat) -> bool {
    in_bounds_upto(indices, len, indices.len() as int) && distinct_upto(
        indices,
        indices.len() as int,
    )
}

/// Decides whether `indices` may be used to take simultaneous exclusive
/// references into a sequence of length `len`: true iff every position is
/// below `len` and no position repeats.
///
/// This checks every index against each other, and against `len`, so it
/// performs `N * (N + 1) / 2` comparisons, accumulating the result across
/// all of them rather than returning at the first failure.
pub fn get_many_check_valid<const N: usize>(indices: &[usize; N], len: usize) -> (valid: bool)
    ensures
        valid == valid_indices(indices@, len as nat),
{
    let mut valid = true;
    for i in 0..N
        invariant
            valid == (in_bounds_upto(indices@, len as nat, i as int) && distinct_upto(
                indices@,
                i as int,
            )),
    {
        valid = valid && (indices[i] < len);
        for j in 0..i
            invariant
                i < N,
                valid == (in_bounds_upto(indices@, len as nat, i as int + 1) && distinct_upto(
                    indices@,
                    i as int,
                ) && (forall|b: int| 0 <= b < j ==> indices@[i as int] != indices@[b])),
        {
            valid = valid && (indices[i] != indices[j]);
        }
        assert(valid == (in_bounds_upto(indices@, len as nat, i as int + 1) && distinct_upto(
            indices@,
            i as int + 1,
        )));
    }
    valid
}

/// Peels every element of `s` off as its own exclusive reference, in order.
///
/// Each returned slot holds `Some` reference to the corresponding cell of
/// `s`, and the value `s` settles to is determined cell by cell by what
/// those references settle to.
fn collect_refs<T>(s: &mut [T]) -> (refs: Vec<Option<&mut T>>)
    ensures
        refs@.len() == old(s)@.len(),
        forall|k: int|
            0 <= k < refs@.len() ==> (#[trigger] refs@[k]) is Some && *refs@[k].unwrap() == old(
                s,
            )@[k],
        final(s)@.len() == old(s)@.len(),
        forall|k: int| 0 <= k < refs@.len() ==> final(s)@[k] == *final(#[trigger] refs@[k].unwrap()),
    decreases s@.len(),
{
    if s.len() == 0 {
        Vec::new()
    } else {
        let (head, tail) = s.split_at_mut(1);
        let first = head.first_mut().unwrap();
        let mut refs = collect_refs(tail);
        refs.insert(0, Some(first));
        refs
    }
}

/// The error returned by the checked operations.
///
/// It indicates one of two possible errors:
/// - An index is out-of-bounds.
/// - The same index appeared multiple times in the array.
///
/// The type deliberately carries no further detail, but is left open so
/// that detail (which index failed, and why) can be attached later without
/// breaking callers that only test success or failure.
#[derive(Debug)]
#[non_exhaustive]
pub struct GetManyMutError<const N: usize>;

impl<const N: usize> GetManyMutError<N> {
    /// A stable, human-readable description of the error.
    pub fn message(&self) -> (m: &'static str)
        ensures
            m@ == "an index is out of bounds or appeared multiple times in the array"@,
    {
        "an index is out of bounds or appeared multiple times in the array"
    }
}

/// Some rank below `k` in `indices` requests position `p`.
pub open spec fn picked(indices: Seq<usize>, k: int, p: usize) -> bool {
    exists|j: int| 0 <= j < k && indices[j] == p
}

/// What a returned reference bundle does to the sequence it was taken
/// from.  `init` and `fin` are the values the sequence holds when the
/// references are produced and the value it settles to once they are done;
/// `starts[k]` is what the `k`-th reference reads when produced and
/// `settles[k]` what it settles to.  The bundle has one reference per
/// requested position, in request order: the `k`-th reference starts out
/// reading `init` at the `k`-th requested position, the cell at that
/// position settles to whatever the reference settles to, and every
/// position that was never requested keeps its value.
pub open spec fn bundle_matches<T>(
    init: Seq<T>,
    fin: Seq<T>,
    indices: Seq<usize>,
    starts: Seq<T>,
    settles: Seq<T>,
) -> bool {
    &&& starts.len() == indices.len()
    &&& settles.len() == indices.len()
    &&& fin.len() == init.len()
    &&& forall|k: int|
        0 <= k < indices.len() ==> starts[k] == init[(#[trigger] indices[k]) as int]
    &&& forall|k: int|
        0 <= k < indices.len() ==> fin[(#[trigger] indices[k]) as int] == settles[k]
    &&& forall|p: usize|
        p < init.len() && !picked(indices, indices.len() as int, p) ==> fin[p as int] == init[p as int]
}

/// Disjointness guarantee: mutating through any one reference of a valid
/// bundle affects only that reference's own target cell.  If every other
/// reference settles at the value it started with, the sequence settles to
/// its initial value with just the one targeted position updated.
pub proof fn lemma_single_write_isolated<T>(
    init: Seq<T>,
    fin: Seq<T>,
    indices: Seq<usize>,
    starts: Seq<T>,
    settles: Seq<T>,
    t: int,
)
    requires
        init.len() <= usize::MAX,
        valid_indices(indices, init.len()),
        bundle_matches(init, fin, indices, starts, settles),
        0 <= t < indices.len(),
        forall|k: int| 0 <= k < indices.len() && k != t ==> settles[k] == starts[k],
    ensures
        fin == init.update(indices[t] as int, settles[t]),
{
    let target = init.update(indices[t] as int, settles[t]);
    assert forall|p: int| 0 <= p < fin.len() implies fin[p] == target[p] by {
        let pu: usize = p as usize;
        if picked(indices, indices.len() as int, pu) {
            let j = choose|j: int| 0 <= j < indices.len() && indices[j] == pu;
            assert(fin[indices[j] as int] == settles[j]);
            if j != t {
                assert(starts[j] == init[indices[j] as int]);
                assert(indices[j] != indices[t]);
            }
        } else {
            assert(fin[pu as int] == init[pu as int]);
            assert(indices[t] != pu);
        }
    }
    assert(fin =~= target);
}

/// Duplicate rejection: a request in which any position repeats is never
/// valid, whatever the sequence length, so the checked operations reject
/// it.
pub proof fn lemma_duplicate_rejected(indices: Seq<usize>, len: nat, i: int, j: int)
    requires
        0 <= i < indices.len(),
        0 <= j < indices.len(),
        i != j,
        indices[i] == indices[j],
    ensures
        !valid_indices(indices, len),
{
}

/// Bounds rejection: a request containing any position at or past the end
/// of the sequence is never valid, so the checked operations reject it.
pub proof fn lemma_out_of_bounds_rejected(indices: Seq<usize>, len: nat, i: int)
    requires
        0 <= i < indices.len(),
        indices[i] >= len,
    ensures
        !valid_indices(indices, len),
{
}

/// Zero-count identity: the empty request is valid against any sequence,
/// including an empty one, so the checked operations accept it and return
/// an empty bundle.
pub proof fn lemma_empty_request_valid(len: nat)
    ensures
        valid_indices(Seq::<usize>::empty(), len),
{
}

/// Disjointness: in a valid request no two ranks denote the same cell, so
/// no two of the returned references alias.
pub proof fn lemma_valid_targets_disjoint(indices: Seq<usize>, len: nat, i: int, j: int)
    requires
        valid_indices(indices, len),
        0 <= i < indices.len(),
        0 <= j < indices.len(),
        i != j,
    ensures
        indices[i] != indices[j],
{
}

/// Checked/unchecked equivalence: for the same sequence and the same valid
/// request, any bundle the checked operation may return and any bundle the
/// unchecked operation may return read the same cells in the same order,
/// and if the references of both settle to the same values, the sequence
/// settles to the same value either way.
pub proof fn lemma_checked_unchecked_equivalent<T>(
    init: Seq<T>,
    indices: Seq<usize>,
    fin1: Seq<T>,
    starts1: Seq<T>,
    settles1: Seq<T>,
    fin2: Seq<T>,
    starts2: Seq<T>,
    settles2: Seq<T>,
)
    requires
        init.len() <= usize::MAX,
        valid_indices(indices, init.len()),
        bundle_matches(init, fin1, indices, starts1, settles1),
        bundle_matches(init, fin2, indices, starts2, settles2),
        settles1 == settles2,
    ensures
        starts1 == starts2,
        fin1 == fin2,
{
    assert forall|k: int| 0 <= k < indices.len() implies starts1[k] == starts2[k] by {
        assert(starts1[k] == init[indices[k] as int]);
        assert(starts2[k] == init[indices[k] as int]);
    }
    assert(starts1 =~= starts2);
    assert forall|p: int| 0 <= p < fin1.len() implies fin1[p] == fin2[p] by {
        let pu: usize = p as usize;
        if picked(indices, indices.len() as int, pu) {
            let j = choose|j: int| 0 <= j < indices.len() && indices[j] == pu;
            assert(fin1[indices[j] as int] == settles1[j]);
            assert(fin2[indices[j] as int] == settles2[j]);
        } else {
            assert(fin1[pu as int] == init[pu as int]);
            assert(fin2[pu as int] == init[pu as int]);
        }
    }
    assert(fin1 =~= fin2);
}

/// Returns exclusive references to the cells of `s` at the requested
/// positions, in request order, without checking the positions: the caller
/// must prove them in bounds and pairwise distinct.
///
/// The cell at `indices[k]` settles to whatever the `k`-th returned
/// reference settles to; every other cell of `s` keeps its value.
pub fn get_many_unchecked_mut<T, const N: usize>(s: &mut [T], indices: [usize; N]) -> (refs: Vec<
    &mut T,
>)
    requires
        valid_indices(indices@, old(s)@.len()),
    ensures
        bundle_matches(
            old(s)@,
            final(s)@,
            indices@,
            Seq::new(refs@.len(), |k: int| *refs@[k]),
            Seq::new(refs@.len(), |k: int| *final(refs@[k])),
        ),
{
    let ghost n = old(s)@.len();
    let ghost init: Seq<T> = s@;
    let ghost fin: Seq<T> = final(s)@;
    let mut slots = collect_refs(s);
    let mut refs: Vec<&mut T> = Vec::new();
    for k in 0..N
        invariant
            valid_indices(indices@, n),
            slots@.len() == n,
            fin.len() == n,
            refs@.len() == k,
            forall|j: int| 0 <= j < k ==> *(#[trigger] refs@[j]) == init[indices@[j] as int],
            forall|j: int| 0 <= j < k ==> fin[indices@[j] as int] == *final(#[trigger] refs@[j]),
            forall|p: usize|
                p < n && !picked(indices@, k as int, p) ==> (#[trigger] slots@[p as int]) is Some
                    && *slots@[p as int].unwrap() == init[p as int]
                    && *final(slots@[p as int].unwrap()) == fin[p as int],
            forall|p: usize|
                p < n && picked(indices@, k as int, p) ==> (#[trigger] slots@[p as int]) is None,
    {
        let idx = indices[k];
        assert(!picked(indices@, k as int, idx)) by {
            assert(distinct_upto(indices@, indices@.len() as int));
            assert(forall|j: int| 0 <= j < k ==> indices@[j] != indices@[k as int]);
        }
        let taken = slots[idx].take();
        refs.push(taken.unwrap());
        assert(forall|p: usize|
            p < n && picked(indices@, k as int + 1, p) && p != idx ==> picked(
                indices@,
                k as int,
                p,
            ));
    }
    proof {
        assert(has_resolved(slots));
        assert forall|p: usize| p < n && !picked(indices@, N as int, p) implies fin[p as int]
            == init[p as int] by {
            assert(has_resolved(slots@[p as int]));
            assert(has_resolved(slots@[p as int].unwrap()));
        }
    }
    refs
}

/// Returns exclusive references to the cells of `s` at the requested
/// positions, in request order, after checking that the positions are in
/// bounds and pairwise distinct.
///
/// Succeeds exactly when the positions are valid.  On success, the cell at
/// `indices[k]` settles to whatever the `k`-th returned reference settles
/// to, and every other cell of `s` keeps its value.  On failure, `s` is
/// left untouched.
pub fn get_many_mut<T, const N: usize>(s: &mut [T], indices: [usize; N]) -> (r: Result<
    Vec<&mut T>,
    GetManyMutError<N>,
>)
    ensures
        r is Ok <==> valid_indices(indices@, old(s)@.len()),
        r is Err ==> final(s)@ == old(s)@,
        r is Ok ==> bundle_matches(
            old(s)@,
            final(s)@,
            indices@,
            Seq::new(r.unwrap()@.len(), |k: int| *r.unwrap()@[k]),
            Seq::new(r.unwrap()@.len(), |k: int| *final(r.unwrap()@[k])),
        ),
{
    if get_many_check_valid(&indices, s.len()) {
        Ok(get_many_unchecked_mut(s, indices))
    } else {
        Err(GetManyMutError)
    }
}

/// Extension trait exposing the checked and unchecked operations as
/// methods, both on slices and on fixed-size arrays.
pub trait GetManyMutExt {
    type Element;

    /// The elements of the sequence, in order.
    spec fn contents(&self) -> Seq<Self::Element>;

    /// Returns mutable references to many indices at once.
    ///
    /// Returns an error if any index is out-of-bounds, or if the same
    /// index was passed more than once.
    fn get_many_mut<const N: usize>(&mut self, indices: [usize; N]) -> (r: Result<
        Vec<&mut Self::Element>,
        GetManyMutError<N>,
    >)
        ensures
            r is Ok <==> valid_indices(indices@, old(self).contents().len()),
            r is Err ==> final(self).contents() == old(self).contents(),
            r is Ok ==> bundle_matches(
                old(self).contents(),
                final(self).contents(),
                indices@,
                Seq::new(r.unwrap()@.len(), |k: int| *r.unwrap()@[k]),
                Seq::new(r.unwrap()@.len(), |k: int| *final(r.unwrap()@[k])),
            ),
    ;

    /// Returns mutable references to many indices at once, without doing
    /// any checks: the caller must prove the indices in bounds and
    /// pairwise distinct.
    fn get_many_unchecked_mut<const N: usize>(&mut self, indices: [usize; N]) -> (refs: Vec<
        &mut Self::Element,
    >)
        requires
            valid_indices(indices@, old(self).contents().len()),
        ensures
            bundle_matches(
                old(self).contents(),
                final(self).contents(),
                indices@,
                Seq::new(refs@.len(), |k: int| *refs@[k]),
                Seq::new(refs@.len(), |k: int| *final(refs@[k])),
            ),
    ;
}

impl<T> GetManyMutExt for [T] {
    type Element = T;

    open spec fn contents(&self) -> Seq<T> {
        self@
    }

    fn get_many_mut<const N: usize>(&mut self, indices: [usize; N]) -> (r: Result<
        Vec<&mut T>,
        GetManyMutError<N>,
    >) {
        crate::get_many_mut(self, indices)
    }

    fn get_many_unchecked_mut<const N: usize>(&mut self, indices: [usize; N]) -> (refs: Vec<
        &mut T,
    >) {
        crate::get_many_unchecked_mut(self, indices)
    }
}

impl<T, const M: usize> GetManyMutExt for [T; M] {
    type Element = T;

    open spec fn contents(&self) -> Seq<T> {
        self@
    }

    fn get_many_mut<const N: usize>(&mut self, indices: [usize; N]) -> (r: Result<
        Vec<&mut T>,
        GetManyMutError<N>,
    >) {
        let s: &mut [T] = self;
        crate::get_many_mut(s, indices)
    }

    fn get_many_unchecked_mut<const N: usize>(&mut self, indices: [usize; N]) -> (refs: Vec<
        &mut T,
    >) {
        let s: &mut [T] = self;
        crate::get_many_unchecked_mut(s, indices)
    }
}

} // verus!
