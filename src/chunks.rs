//! The mathematical model of chunking a sequence.

use vstd::prelude::*;

verus! {

/// The consecutive pieces of length `n` that cover `s`, in order.
/// When `n` does not divide the length, the incomplete tail is not covered.
pub open spec fn chunks_of<T>(s: Seq<T>, n: nat) -> Seq<Seq<T>>
    recommends
        n > 0,
{
    Seq::new(s.len() / n, |i: int| s.subrange(i * n, i * n + n))
}

/// The consecutive pieces of at most `n` elements that cover all of `s`, in order:
/// all have length `n` but the last, which is shorter when `n` does not divide the length.
pub open spec fn ragged_chunks_of<T>(s: Seq<T>, n: nat) -> Seq<Seq<T>>
    recommends
        n > 0,
{
    Seq::new(
        (s.len() + n - 1) as nat / n,
        |i: int| s.subrange(i * n, if i * n + n <= s.len() { i * n + n } else { s.len() as int }),
    )
}

/// Whether a buffer of length `len` can be split into `count` equal chunks:
/// `count` divides `len` and no chunk is empty, or the buffer is empty and no chunk is asked for.
pub open spec fn can_split_into(len: nat, count: nat) -> bool {
    if count == 0 {
        len == 0
    } else {
        len >= count && len % count == 0
    }
}

/// The pieces of `s` when it is split into `count` equal chunks.
/// An empty buffer split into zero chunks gives one empty chunk.
pub open spec fn split_into_spec<T>(s: Seq<T>, count: nat) -> Seq<Seq<T>> {
    if count == 0 {
        seq![s]
    } else {
        chunks_of(s, s.len() / count)
    }
}

/// When `n` divides the length of `s`, the chunks of `s` put back together give `s`.
pub proof fn lemma_chunks_flatten<T>(s: Seq<T>, n: nat)
    requires
        n > 0,
        s.len() % n == 0,
    ensures
        chunks_of(s, n).flatten() == s,
    decreases s.len(),
{
    if s.len() == 0 {
        assert(chunks_of(s, n) =~= Seq::<Seq<T>>::empty());
    } else {
        assert(s.len() >= n) by {
            if s.len() < n {
                vstd::arithmetic::div_mod::lemma_small_mod(s.len(), n);
            }
        }
        let rest = s.subrange(n as int, s.len() as int);
        assert(rest.len() % n == 0) by {
            vstd::arithmetic::div_mod::lemma_mod_sub_multiples_vanish(s.len() as int, n as int);
        }
        lemma_chunks_flatten(rest, n);
        let c = chunks_of(s, n);
        let cr = chunks_of(rest, n);
        assert(s.len() / n == rest.len() / n + 1) by {
            vstd::arithmetic::div_mod::lemma_div_plus_one(rest.len() as int, n as int);
        }
        assert(c.drop_first() =~= cr) by {
            assert forall|i: int| 0 <= i < cr.len() implies #[trigger] c.drop_first()[i] =~= cr[i] by {
                lemma_chunk_in_bounds(rest.len(), n, i);
                assert((i + 1) * n == i * n + n) by (nonlinear_arith);
            }
        }
        assert(c.first() =~= s.subrange(0, n as int));
        assert(c =~= seq![c.first()] + c.drop_first());
        lemma_flatten_cons(c.first(), cr);
        assert(s =~= s.subrange(0, n as int) + rest);
    }
}

/// Splitting a buffer into `count` equal chunks gives `count` chunks (one when `count` is zero),
/// each of the same length, which put back together give the buffer.
pub proof fn lemma_split_into_flatten<T>(s: Seq<T>, count: nat)
    requires
        can_split_into(s.len(), count),
    ensures
        split_into_spec(s, count).len() == if count == 0 { 1 } else { count },
        forall|i: int|
            0 <= i < split_into_spec(s, count).len() ==> (#[trigger] split_into_spec(s, count)[i]).len()
                == s.len() / count || count == 0,
        split_into_spec(s, count).flatten() == s,
        count > 0 ==> s.len() / count > 0 && s.len() % (s.len() / count) == 0,
{
    if count == 0 {
        let c = split_into_spec(s, count);
        assert(c =~= seq![s] + Seq::<Seq<T>>::empty());
        lemma_flatten_cons(s, Seq::<Seq<T>>::empty());
        assert(s + Seq::<T>::empty() =~= s);
    } else {
        let n = s.len() / count;
        vstd::arithmetic::div_mod::lemma_fundamental_div_mod(s.len() as int, count as int);
        assert(n > 0) by {
            vstd::arithmetic::div_mod::lemma_div_non_zero(s.len() as int, count as int);
        }
        assert(s.len() == n * count);
        assert(s.len() % n == 0) by {
            vstd::arithmetic::div_mod::lemma_mod_multiples_basic(count as int, n as int);
            assert(count * n == n * count) by (nonlinear_arith);
        }
        assert(s.len() / n == count) by {
            vstd::arithmetic::div_mod::lemma_div_multiples_vanish(count as int, n as int);
            assert(count * n == n * count) by (nonlinear_arith);
        }
        lemma_chunks_flatten(s, n);
        assert forall|i: int| 0 <= i < count implies (#[trigger] split_into_spec(s, count)[i]).len()
            == n by {
            lemma_chunk_in_bounds(s.len(), n, i);
        }
    }
}

/// When `n` divides the length of `s`, cutting `s` into pieces of at most `n` elements
/// gives exactly its chunks of `n` elements.
pub proof fn lemma_ragged_chunks_exact<T>(s: Seq<T>, n: nat)
    requires
        n > 0,
        s.len() % n == 0,
    ensures
        ragged_chunks_of(s, n) == chunks_of(s, n),
{
    let q = s.len() / n;
    vstd::arithmetic::div_mod::lemma_fundamental_div_mod(s.len() as int, n as int);
    assert(s.len() + n - 1 == q * n + (n - 1)) by (nonlinear_arith)
        requires
            s.len() == n * q,
    ;
    vstd::arithmetic::div_mod::lemma_fundamental_div_mod_converse(
        (s.len() + n - 1) as int,
        n as int,
        q as int,
        (n - 1) as int,
    );
    let r = ragged_chunks_of(s, n);
    let c = chunks_of(s, n);
    assert forall|i: int| 0 <= i < c.len() implies #[trigger] r[i] == c[i] by {
        lemma_chunk_in_bounds(s.len(), n, i);
    }
    assert(r =~= c);
}

/// Splitting a buffer into `count` pieces sequentially (exact chunks) and in parallel
/// (chunks of at most the same length) gives the same pieces, and those pieces put back
/// together give the buffer.
pub proof fn lemma_sequential_parallel_split_agree<T>(s: Seq<T>, count: nat)
    requires
        count > 0,
        can_split_into(s.len(), count),
    ensures
        ragged_chunks_of(s, s.len() / count) == chunks_of(s, s.len() / count),
        ragged_chunks_of(s, s.len() / count).flatten() == s,
{
    lemma_split_into_flatten(s, count);
    lemma_ragged_chunks_exact(s, s.len() / count);
}

/// Chunk `i` of a buffer of length `len` cut into chunks of `n` lies inside the buffer.
pub(crate) proof fn lemma_chunk_in_bounds(len: nat, n: nat, i: int)
    requires
        n > 0,
        0 <= i < len / n,
    ensures
        0 <= i * n,
        i * n + n <= len,
{
    vstd::arithmetic::div_mod::lemma_fundamental_div_mod(len as int, n as int);
    vstd::arithmetic::mul::lemma_mul_inequality(i + 1, (len / n) as int, n as int);
    vstd::arithmetic::mul::lemma_mul_nonnegative(i, n as int);
    assert((i + 1) * n == i * n + n) by (nonlinear_arith);
    assert((len / n) as int * n == n * (len / n) as int) by (nonlinear_arith);
}

/// Flattening a sequence of pieces that starts with `head` gives `head`, then the rest.
proof fn lemma_flatten_cons<T>(head: Seq<T>, tail: Seq<Seq<T>>)
    ensures
        (seq![head] + tail).flatten() == head + tail.flatten(),
{
    let whole = seq![head] + tail;
    assert(whole.drop_first() =~= tail);
    assert(whole.first() == head);
}

} // verus!
