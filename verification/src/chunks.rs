//! How a byte stream is cut into chunks of a bounded size, and what the cut
//! keeps: the bytes, their order and the least possible number of pieces.
use vstd::prelude::*;
use vstd::arithmetic::div_mod::lemma_fundamental_div_mod;
use vstd::arithmetic::div_mod::lemma_fundamental_div_mod_converse;
use vstd::arithmetic::div_mod::lemma_mod_bound;

verus! {

/// The number of chunks that `len` bytes make at `cap` bytes a chunk: `len / cap`,
/// rounded up.
pub open spec fn chunk_count(len: nat, cap: nat) -> nat {
    if len == 0 {
        0
    } else {
        ((len - 1) / (cap as int) + 1) as nat
    }
}

/// The number of chunks that are cut off and handed on while `len` bytes pass
/// through a buffer of `cap` bytes: every chunk but the one still buffered.
pub open spec fn full_chunks(len: nat, cap: nat) -> nat {
    if len == 0 {
        0
    } else {
        ((len - 1) / (cap as int)) as nat
    }
}

/// Chunk number `i` of `s`: the bytes from `i * cap` up to `(i + 1) * cap`, or up
/// to the end of `s` where that comes first.
pub open spec fn chunk_at(s: Seq<u8>, cap: nat, i: int) -> Seq<u8> {
    s.subrange(
        i * cap,
        if (i + 1) * cap <= s.len() {
            (i + 1) * cap
        } else {
            s.len() as int
        },
    )
}

/// `s` cut into chunks of `cap` bytes; only the last may be shorter.
pub open spec fn chunks_of(s: Seq<u8>, cap: nat) -> Seq<Seq<u8>> {
    Seq::new(chunk_count(s.len(), cap), |i: int| chunk_at(s, cap, i))
}

/// The chunks laid end to end, in order.
pub open spec fn joined(chunks: Seq<Seq<u8>>) -> Seq<u8>
    decreases chunks.len(),
{
    if chunks.len() == 0 {
        Seq::empty()
    } else {
        joined(chunks.drop_last()) + chunks.last()
    }
}

/// The bytes that all the chunks hold together.
pub open spec fn total_len(chunks: Seq<Seq<u8>>) -> nat {
    joined(chunks).len()
}

/// Every chunk holds at least one byte and at most `cap`.
pub open spec fn chunks_bounded(chunks: Seq<Seq<u8>>, cap: nat) -> bool {
    forall|i: int| 0 <= i < chunks.len() ==> 0 < (#[trigger] chunks[i]).len() <= cap
}

/// `chunk_count` is the ceiling of `len / cap`: that many chunks of `cap` bytes
/// hold `len` bytes, and one fewer do not.
pub proof fn lemma_chunk_count_is_ceiling(len: nat, cap: nat)
    requires
        cap > 0,
    ensures
        chunk_count(len, cap) * cap >= len,
        len > 0 ==> (chunk_count(len, cap) - 1) * cap < len,
        chunk_count(len, cap) == (len + cap - 1) / (cap as int),
        len > 0 ==> chunk_count(len, cap) == full_chunks(len, cap) + 1,
        full_chunks(len, cap) * cap <= len,
        len <= cap ==> full_chunks(len, cap) == 0,
{
    if len > 0 {
        let x = len - 1;
        let q = x / (cap as int);
        let r = x % (cap as int);
        lemma_fundamental_div_mod(x, cap as int);
        lemma_mod_bound(x, cap as int);
        assert(x == cap * q + r);
        assert(q >= 0) by (nonlinear_arith)
            requires
                x == cap * q + r,
                0 <= r < cap,
                x >= 0,
                cap > 0,
        ;
        assert((q + 1) * cap == cap * q + cap) by (nonlinear_arith);
        assert(q * cap == cap * q) by (nonlinear_arith);
        assert(len + cap - 1 == (q + 1) * cap + r);
        lemma_fundamental_div_mod_converse(len + cap - 1, cap as int, q + 1, r);
        if len <= cap {
            lemma_fundamental_div_mod_converse(x, cap as int, 0, x);
        }
    } else {
        lemma_fundamental_div_mod_converse(cap - 1, cap as int, 0, cap - 1);
    }
}

/// The number of full chunks is the one `k` with `k * cap < len <= (k + 1) * cap`.
pub proof fn lemma_full_chunks_unique(len: nat, cap: nat, k: int)
    requires
        cap > 0,
        k >= 0,
        k * cap < len <= (k + 1) * cap,
    ensures
        full_chunks(len, cap) == k,
{
    let r = len - 1 - k * cap;
    assert((k + 1) * cap == k * cap + cap) by (nonlinear_arith);
    lemma_fundamental_div_mod_converse(len - 1, cap as int, k, r);
}

/// Joining distributes over a chunk added at the end.
pub proof fn lemma_joined_push(chunks: Seq<Seq<u8>>, chunk: Seq<u8>)
    ensures
        joined(chunks.push(chunk)) == joined(chunks) + chunk,
{
    assert(chunks.push(chunk).drop_last() =~= chunks);
}

/// Joining distributes over two runs of chunks laid one after the other.
pub proof fn lemma_joined_concat(a: Seq<Seq<u8>>, b: Seq<Seq<u8>>)
    ensures
        joined(a + b) == joined(a) + joined(b),
    decreases b.len(),
{
    if b.len() == 0 {
        assert(a + b =~= a);
        assert(joined(a) + joined(b) =~= joined(a));
    } else {
        lemma_joined_concat(a, b.drop_last());
        assert((a + b).drop_last() =~= a + b.drop_last());
        assert((a + b).last() == b.last());
        assert(joined(a) + (joined(b.drop_last()) + b.last()) =~= (joined(a) + joined(
            b.drop_last(),
        )) + b.last());
    }
}

/// The first `k` chunks of `s`, joined, are the first `k * cap` bytes of `s`.
pub proof fn lemma_joined_prefix(s: Seq<u8>, cap: nat, k: nat)
    requires
        cap > 0,
        k <= full_chunks(s.len(), cap),
    ensures
        k * cap <= s.len(),
        k <= chunks_of(s, cap).len(),
        joined(chunks_of(s, cap).take(k as int)) == s.take((k * cap) as int),
    decreases k,
{
    lemma_chunk_count_is_ceiling(s.len(), cap);
    let f = full_chunks(s.len(), cap);
    assert(k * cap <= f * cap) by (nonlinear_arith)
        requires
            k <= f,
            cap > 0,
    ;
    let chunks = chunks_of(s, cap);
    if k == 0 {
        assert(chunks.take(0) =~= Seq::<Seq<u8>>::empty());
        assert(0 * cap == 0) by (nonlinear_arith);
        assert(s.take(0) =~= Seq::<u8>::empty());
    } else {
        lemma_joined_prefix(s, cap, (k - 1) as nat);
        let head = chunks.take(k as int);
        assert(head.drop_last() =~= chunks.take(k - 1));
        assert(head.last() == chunk_at(s, cap, k - 1));
        assert((k - 1 + 1) * cap == k * cap);
        assert((k - 1) * cap + cap == k * cap) by (nonlinear_arith);
        assert(chunk_at(s, cap, k - 1) == s.subrange((k - 1) * cap, k * cap as int));
        assert(s.take((k - 1) * cap) + s.subrange((k - 1) * cap, k * cap as int) =~= s.take(
            (k * cap) as int,
        ));
    }
}

/// Cutting loses nothing and reorders nothing: the chunks of `s`, joined, are `s`.
/// Their number is the ceiling of `s.len() / cap`, and each holds between one
/// and `cap` bytes.
pub proof fn lemma_chunks_rejoin(s: Seq<u8>, cap: nat)
    requires
        cap > 0,
    ensures
        joined(chunks_of(s, cap)) == s,
        chunks_of(s, cap).len() == chunk_count(s.len(), cap),
        chunks_bounded(chunks_of(s, cap), cap),
{
    lemma_chunk_count_is_ceiling(s.len(), cap);
    let chunks = chunks_of(s, cap);
    let f = full_chunks(s.len(), cap);
    if s.len() == 0 {
        assert(chunks =~= Seq::<Seq<u8>>::empty());
        assert(s =~= Seq::<u8>::empty());
    } else {
        lemma_joined_prefix(s, cap, f);
        assert(chunks.drop_last() =~= chunks.take(f as int));
        assert((f + 1) * cap == f * cap + cap) by (nonlinear_arith);
        assert(chunks.last() == chunk_at(s, cap, f as int));
        assert(chunk_at(s, cap, f as int) =~= s.skip((f * cap) as int));
        assert(s.take((f * cap) as int) + s.skip((f * cap) as int) =~= s);
    }
    assert forall|i: int| 0 <= i < chunks.len() implies 0 < (#[trigger] chunks[i]).len()
        <= cap by {
        assert((i + 1) * cap == i * cap + cap) by (nonlinear_arith);
        assert(i * cap <= f * cap) by (nonlinear_arith)
            requires
                i <= f,
                cap > 0,
        ;
        if i < f {
            assert((i + 1) * cap <= f * cap) by (nonlinear_arith)
                requires
                    i + 1 <= f,
                    cap > 0,
            ;
        }
        assert((f + 1) * cap == f * cap + cap) by (nonlinear_arith);
    }
}

/// Any `m` with `m * cap < len` is at most the number of full chunks.
pub proof fn lemma_full_chunks_lower(len: nat, cap: nat, m: nat)
    requires
        cap > 0,
        m * cap < len,
    ensures
        m <= full_chunks(len, cap),
        m < chunk_count(len, cap),
{
    lemma_chunk_count_is_ceiling(len, cap);
    let k = full_chunks(len, cap);
    assert(m < k + 1) by (nonlinear_arith)
        requires
            m * cap < len,
            len <= (k + 1) * cap,
            cap > 0,
    ;
}

/// Cutting can go on where it stopped. Let `x` have passed through the buffer,
/// so that its last chunk is still held, and let `p` come after it. Then the
/// chunks cut off so far, followed by those cut off while `p` passes, are the
/// chunks cut off from `x + p` in one go, and the same bytes stay behind.
pub proof fn lemma_chunks_resume(x: Seq<u8>, p: Seq<u8>, cap: nat)
    requires
        cap > 0,
    ensures
        ({
            let k = full_chunks(x.len(), cap);
            let held = x.skip((k * cap) as int) + p;
            let k2 = full_chunks(held.len(), cap);
            &&& k + k2 == full_chunks((x + p).len(), cap)
            &&& chunks_of(x, cap).take(k as int) + chunks_of(held, cap).take(k2 as int)
                == chunks_of(x + p, cap).take((k + k2) as int)
            &&& held.skip((k2 * cap) as int) == (x + p).skip(((k + k2) * cap) as int)
        }),
{
    let k = full_chunks(x.len(), cap);
    lemma_chunk_count_is_ceiling(x.len(), cap);
    let held = x.skip((k * cap) as int) + p;
    let k2 = full_chunks(held.len(), cap);
    lemma_chunk_count_is_ceiling(held.len(), cap);
    let all = x + p;
    assert(held =~= all.skip((k * cap) as int));
    assert(all.len() == held.len() + k * cap);
    assert((k + k2) * cap == k * cap + k2 * cap) by (nonlinear_arith);
    assert((k + k2 + 1) * cap == k * cap + k2 * cap + cap) by (nonlinear_arith);
    assert((k2 + 1) * cap == k2 * cap + cap) by (nonlinear_arith);
    assert((k + 1) * cap == k * cap + cap) by (nonlinear_arith);
    if all.len() == 0 {
        assert(k == 0 && k2 == 0);
    } else if held.len() == 0 {
        // nothing is held back, so `x` is empty, and so is `p`
        assert(x.len() == k * cap);
        assert(false);
    } else {
        lemma_full_chunks_unique(all.len(), cap, (k + k2) as int);
    }
    lemma_chunk_count_is_ceiling(all.len(), cap);
    let left = chunks_of(x, cap).take(k as int) + chunks_of(held, cap).take(k2 as int);
    let right = chunks_of(all, cap).take((k + k2) as int);
    assert(left.len() == right.len());
    assert forall|i: int| 0 <= i < left.len() implies left[i] == right[i] by {
        assert((i + 1) * cap == i * cap + cap) by (nonlinear_arith);
        if i < k {
            assert((i + 1) * cap <= k * cap) by (nonlinear_arith)
                requires
                    i + 1 <= k,
                    cap > 0,
            ;
            assert(i * cap >= 0) by (nonlinear_arith)
                requires
                    i >= 0,
                    cap > 0,
            ;
            assert(chunk_at(x, cap, i) =~= chunk_at(all, cap, i));
        } else {
            let j = i - k;
            assert((j + 1) * cap == j * cap + cap) by (nonlinear_arith);
            assert(i * cap == k * cap + j * cap) by (nonlinear_arith)
                requires
                    i == k + j,
            ;
            assert((j + 1) * cap <= k2 * cap) by (nonlinear_arith)
                requires
                    j + 1 <= k2,
                    cap > 0,
            ;
            assert(j * cap >= 0) by (nonlinear_arith)
                requires
                    j >= 0,
                    cap > 0,
            ;
            assert(chunk_at(held, cap, j) =~= chunk_at(all, cap, i));
        }
    }
    assert(left =~= right);
    assert(held.skip((k2 * cap) as int) =~= all.skip(((k + k2) * cap) as int));
}

/// The chunks cut off while `s` passes, followed by what is still held, are
/// all the chunks of `s`.
pub proof fn lemma_chunks_complete(s: Seq<u8>, cap: nat)
    requires
        cap > 0,
        s.len() > 0,
    ensures
        chunks_of(s, cap).take(full_chunks(s.len(), cap) as int).push(
            s.skip((full_chunks(s.len(), cap) * cap) as int),
        ) == chunks_of(s, cap),
        0 < s.skip((full_chunks(s.len(), cap) * cap) as int).len() <= cap,
{
    lemma_chunk_count_is_ceiling(s.len(), cap);
    let f = full_chunks(s.len(), cap);
    assert((f + 1) * cap == f * cap + cap) by (nonlinear_arith);
    assert(chunk_at(s, cap, f as int) =~= s.skip((f * cap) as int));
    assert(chunks_of(s, cap).take(f as int).push(s.skip((f * cap) as int)) =~= chunks_of(s, cap));
}

/// More bytes never make fewer full chunks.
pub proof fn lemma_full_chunks_monotone(a: nat, b: nat, cap: nat)
    requires
        cap > 0,
        a <= b,
    ensures
        full_chunks(a, cap) <= full_chunks(b, cap),
{
    lemma_chunk_count_is_ceiling(a, cap);
    if a > 0 {
        lemma_full_chunks_lower(b, cap, full_chunks(a, cap));
    }
}

} // verus!
