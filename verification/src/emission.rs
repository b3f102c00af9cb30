//! What a writer appends: the bytes written, and the error that stopped it,
//! if one did. A writer that fails keeps what it wrote before the failure,
//! exactly as a writer onto a stream does.
use crate::error::Error;
use vstd::prelude::*;

verus! {

/// The bytes a writer appends and the error it stops with, if any.
pub type Emission = (Seq<u8>, Option<Error>);

/// Appends `bytes` and succeeds.
pub open spec fn emit(bytes: Seq<u8>) -> Emission {
    (bytes, None)
}

/// Appends nothing and fails with `e`.
pub open spec fn fail(e: Error) -> Emission {
    (Seq::empty(), Some(e))
}

/// Runs `a`, then `b` only if `a` succeeded.
pub open spec fn chain(a: Emission, b: Emission) -> Emission {
    if a.1 is Some {
        a
    } else {
        (a.0 + b.0, b.1)
    }
}

/// The writers of each item of `items`, one after the other, stopping at the
/// first failure.
pub open spec fn chain_all<T>(items: Seq<T>, f: spec_fn(T) -> Emission) -> Emission
    decreases items.len(),
{
    if items.len() == 0 {
        emit(Seq::empty())
    } else {
        chain(chain_all(items.drop_last(), f), f(items.last()))
    }
}

/// `out_after` is `out_before` with the bytes of `e` appended, and `r` reports
/// the outcome of `e`.
pub open spec fn wrote(out_before: Seq<u8>, out_after: Seq<u8>, r: Result<(), Error>, e: Emission) -> bool {
    &&& out_after == out_before + e.0
    &&& match r {
        Ok(_) => e.1 is None,
        Err(err) => e.1 == Some(err),
    }
}

/// The first `i + 1` items are the first `i`, then item `i`.
pub proof fn lemma_chain_all_step<T>(items: Seq<T>, f: spec_fn(T) -> Emission, i: int)
    requires
        0 <= i < items.len(),
    ensures
        chain_all(items.take(i + 1), f) == chain(chain_all(items.take(i), f), f(items[i])),
{
    assert(items.take(i + 1).drop_last() =~= items.take(i));
}

/// Once the first `k` items fail, the rest are never written.
pub proof fn lemma_chain_all_failed<T>(items: Seq<T>, f: spec_fn(T) -> Emission, k: int)
    requires
        0 <= k <= items.len(),
        chain_all(items.take(k), f).1 is Some,
    ensures
        chain_all(items, f) == chain_all(items.take(k), f),
    decreases items.len() - k,
{
    if k == items.len() {
        assert(items.take(k) =~= items);
    } else {
        lemma_chain_all_step(items, f, k);
        lemma_chain_all_failed(items, f, k + 1);
    }
}

/// All the items, written one after the other.
pub proof fn lemma_chain_all_whole<T>(items: Seq<T>, f: spec_fn(T) -> Emission)
    ensures
        chain_all(items.take(items.len() as int), f) == chain_all(items, f),
{
    assert(items.take(items.len() as int) =~= items);
}

/// Writing `a` successfully and then `b` is writing `chain(a, b)`.
pub proof fn lemma_wrote_chain(s0: Seq<u8>, s1: Seq<u8>, s2: Seq<u8>, r: Result<(), Error>, a: Emission, b: Emission)
    requires
        wrote(s0, s1, Ok(()), a),
        wrote(s1, s2, r, b),
    ensures
        wrote(s0, s2, r, chain(a, b)),
{
    assert(s0 + (a.0 + b.0) =~= s0 + a.0 + b.0);
}

/// A writer that fails while writing `a` has written `chain(a, b)`.
pub proof fn lemma_wrote_failed(s0: Seq<u8>, s1: Seq<u8>, r: Result<(), Error>, a: Emission, b: Emission)
    requires
        wrote(s0, s1, r, a),
        r is Err,
    ensures
        wrote(s0, s1, r, chain(a, b)),
{
}

} // verus!
