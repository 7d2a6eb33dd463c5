//! The mathematics of cutting a byte stream into MTU-bounded payloads.
//!
//! Everything here is specification and proof: what the payloads of a stream
//! are, how many there are, how long each is, and that nothing is lost or
//! reordered. The executable chunker is specified against these definitions.

use vstd::arithmetic::div_mod::{lemma_fundamental_div_mod, lemma_fundamental_div_mod_converse};
use vstd::prelude::*;

verus! {

/// How many frames a stream of `len` bytes needs when each carries at most
/// `mtu` bytes: one per full payload, and one more for a short remainder.
pub open spec fn frame_count(len: nat, mtu: nat) -> nat {
    if len % mtu == 0 {
        len / mtu
    } else {
        len / mtu + 1
    }
}

/// The payload of frame number `i` (from zero): the bytes of the stream from
/// offset `i * mtu` up to the next multiple of `mtu`, or to the end of the
/// stream if that comes first.
pub open spec fn payload_at(stream: Seq<u8>, mtu: nat, i: int) -> Seq<u8> {
    let end = if (i + 1) * mtu <= stream.len() {
        (i + 1) * mtu
    } else {
        stream.len() as int
    };
    stream.subrange(i * mtu, end)
}

/// The payloads of all frames that carry `stream`, in order.
pub open spec fn payloads(stream: Seq<u8>, mtu: nat) -> Seq<Seq<u8>> {
    Seq::new(frame_count(stream.len(), mtu), |i: int| payload_at(stream, mtu, i))
}

/// The payloads of exactly `mtu` bytes that can be cut from the front of
/// `stream`, in order.
pub open spec fn full_payloads(stream: Seq<u8>, mtu: nat) -> Seq<Seq<u8>> {
    Seq::new(stream.len() / mtu, |i: int| stream.subrange(i * mtu, (i + 1) * mtu))
}

/// What is left of `stream` once every full payload has been cut from its
/// front: its last `len % mtu` bytes.
pub open spec fn remainder(stream: Seq<u8>, mtu: nat) -> Seq<u8> {
    stream.skip(stream.len() - stream.len() % mtu)
}

/// Where payload `i` sits in a stream of `len` bytes.
pub proof fn lemma_payload_bounds(len: nat, mtu: nat, i: int)
    requires
        mtu > 0,
        0 <= i < frame_count(len, mtu),
    ensures
        0 <= i * mtu < len,
        (i + 1) * mtu == i * mtu + mtu,
        i < len / mtu ==> (i + 1) * mtu <= len,
        i >= len / mtu ==> i == len / mtu && len - i * mtu == len % mtu && 0 < len % mtu < mtu,
{
    let q = (len / mtu) as int;
    let r = (len % mtu) as int;
    let m = mtu as int;
    lemma_fundamental_div_mod(len as int, m);
    assert(len == m * q + r);
    assert(0 <= r < m);
    assert((i + 1) * m == i * m + m) by (nonlinear_arith);
    assert(0 <= i * m) by (nonlinear_arith)
        requires
            0 <= i,
            0 < m,
    ;
    if i < q {
        assert((i + 1) * m <= m * q) by (nonlinear_arith)
            requires
                i + 1 <= q,
                0 < m,
        ;
    } else {
        assert(i == q);
        assert(i * m == m * q) by (nonlinear_arith)
            requires
                i == q,
        ;
    }
}

/// The quotient and remainder of a length that is a whole number of payloads
/// plus a short rest.
pub proof fn lemma_count_from_parts(len: nat, mtu: nat, full: nat, rest: nat)
    requires
        mtu > 0,
        rest < mtu,
        len == full * mtu + rest,
    ensures
        len / mtu == full,
        len % mtu == rest,
{
    lemma_fundamental_div_mod_converse(len as int, mtu as int, full as int, rest as int);
}

/// The number of frames and the length of each: `len / mtu` payloads of
/// exactly `mtu` bytes, followed by one of `len % mtu` bytes when that is not
/// zero. An empty stream has no frames, and no frame is empty.
pub proof fn lemma_payload_lengths(stream: Seq<u8>, mtu: nat)
    requires
        mtu > 0,
    ensures
        payloads(stream, mtu).len() == stream.len() / mtu + (if stream.len() % mtu != 0 {
            1nat
        } else {
            0nat
        }),
        stream.len() == 0 ==> payloads(stream, mtu).len() == 0,
        forall|i: int|
            0 <= i < stream.len() / mtu ==> (#[trigger] payloads(stream, mtu)[i]).len() == mtu,
        stream.len() % mtu != 0 ==> payloads(stream, mtu).last().len() == stream.len() % mtu,
        forall|i: int|
            0 <= i < payloads(stream, mtu).len() ==> 0 < (#[trigger] payloads(stream, mtu)[i]).len()
                <= mtu,
{
    let len = stream.len();
    let all = payloads(stream, mtu);
    lemma_fundamental_div_mod(len as int, mtu as int);
    if len == 0 {
        lemma_count_from_parts(0, mtu, 0, 0);
    }
    assert forall|i: int| 0 <= i < all.len() implies 0 < (#[trigger] all[i]).len() <= mtu && (i
        < len / mtu ==> all[i].len() == mtu) && (i >= len / mtu ==> all[i].len() == len % mtu) by {
        lemma_payload_bounds(len, mtu, i);
    }
    if len % mtu != 0 {
        assert(all.last() == all[(len / mtu) as int]);
    }
}

/// Every frame but possibly the last carries exactly `mtu` bytes.
pub proof fn lemma_only_last_is_short(stream: Seq<u8>, mtu: nat, i: int)
    requires
        mtu > 0,
        0 <= i < payloads(stream, mtu).len() - 1,
    ensures
        payloads(stream, mtu)[i].len() == mtu,
{
    lemma_payload_bounds(stream.len(), mtu, i);
    lemma_payload_lengths(stream, mtu);
}

/// The payloads of a stream are its full payloads, followed by its remainder
/// when that is not empty.
pub proof fn lemma_payloads_are_full_then_rest(stream: Seq<u8>, mtu: nat)
    requires
        mtu > 0,
    ensures
        remainder(stream, mtu).len() == stream.len() % mtu,
        payloads(stream, mtu) == if stream.len() % mtu == 0 {
            full_payloads(stream, mtu)
        } else {
            full_payloads(stream, mtu).push(remainder(stream, mtu))
        },
{
    let len = stream.len();
    let all = payloads(stream, mtu);
    let full = full_payloads(stream, mtu);
    lemma_fundamental_div_mod(len as int, mtu as int);
    assert forall|i: int| 0 <= i < all.len() implies (i < len / mtu ==> all[i] == full[i]) && (i
        >= len / mtu ==> all[i] == remainder(stream, mtu)) by {
        lemma_payload_bounds(len, mtu, i);
    }
    if len % mtu == 0 {
        assert(all =~= full);
    } else {
        assert(all =~= full.push(remainder(stream, mtu)));
    }
}

/// The first `k` payloads, joined end to end, are the front of the stream.
proof fn lemma_joined_prefix(stream: Seq<u8>, mtu: nat, k: nat)
    requires
        mtu > 0,
        k <= payloads(stream, mtu).len(),
    ensures
        k * mtu <= stream.len() ==> payloads(stream, mtu).take(k as int).flatten()
            == stream.take((k * mtu) as int),
        k * mtu > stream.len() ==> payloads(stream, mtu).take(k as int).flatten() == stream,
    decreases k,
{
    let all = payloads(stream, mtu);
    let len = stream.len();
    if k == 0 {
        assert(all.take(0) =~= Seq::<Seq<u8>>::empty());
        assert(all.take(0).flatten() =~= stream.take(0));
        assert(0 * mtu == 0);
    } else {
        let j = (k - 1) as nat;
        lemma_joined_prefix(stream, mtu, j);
        lemma_payload_bounds(len, mtu, j as int);
        assert(all.take(k as int) =~= all.take(j as int).push(all[j as int]));
        Seq::lemma_flatten_push(all.take(j as int), all[j as int]);
        assert(all.take(j as int).flatten() == stream.take((j * mtu) as int));
        if k * mtu <= len {
            assert(stream.take((j * mtu) as int) + all[j as int] =~= stream.take((k * mtu) as int));
        } else {
            assert(stream.take((j * mtu) as int) + all[j as int] =~= stream);
        }
    }
}

/// Nothing is lost, added or reordered: the payloads joined end to end are
/// the stream.
pub proof fn lemma_payloads_join_to_stream(stream: Seq<u8>, mtu: nat)
    requires
        mtu > 0,
    ensures
        payloads(stream, mtu).flatten() == stream,
{
    let all = payloads(stream, mtu);
    let len = stream.len();
    let n = all.len();
    lemma_joined_prefix(stream, mtu, n);
    assert(all.take(n as int) =~= all);
    lemma_fundamental_div_mod(len as int, mtu as int);
    if n * mtu <= len {
        assert(n * mtu >= len) by (nonlinear_arith)
            requires
                n >= len / mtu,
                len % mtu != 0 ==> n >= len / mtu + 1,
                len == mtu * (len / mtu) + len % mtu,
                0 <= len % mtu < mtu,
        ;
        assert(stream.take((n * mtu) as int) =~= stream);
    }
}

/// Cutting is indifferent to how the stream arrives: cutting `head + tail`
/// at once gives the full payloads of `head`, then those of what `head`
/// left over followed by `tail`, and leaves the same remainder.
pub proof fn lemma_cut_in_pieces(head: Seq<u8>, tail: Seq<u8>, mtu: nat)
    requires
        mtu > 0,
    ensures
        full_payloads(head + tail, mtu) == full_payloads(head, mtu) + full_payloads(
            remainder(head, mtu) + tail,
            mtu,
        ),
        remainder(head + tail, mtu) == remainder(remainder(head, mtu) + tail, mtu),
{
    let m = mtu as int;
    let whole = head + tail;
    let carried = remainder(head, mtu) + tail;
    let q = (head.len() / mtu) as int;
    let r = (head.len() % mtu) as int;
    let p = (carried.len() / mtu) as int;
    let s = (carried.len() % mtu) as int;
    lemma_fundamental_div_mod(head.len() as int, m);
    lemma_fundamental_div_mod(carried.len() as int, m);
    assert(0 <= q * m) by (nonlinear_arith)
        requires
            0 <= q,
            0 < m,
    ;
    assert(head.len() == q * m + r) by (nonlinear_arith)
        requires
            head.len() == m * q + r,
    ;
    assert(carried.len() == p * m + s) by (nonlinear_arith)
        requires
            carried.len() == m * p + s,
    ;
    assert(carried.len() == r + tail.len());
    assert((q + p) * m == q * m + p * m) by (nonlinear_arith);
    lemma_count_from_parts(whole.len(), mtu, (q + p) as nat, s as nat);
    assert forall|j: int| 0 <= j < carried.len() implies carried[j] == whole[q * m + j] by {}
    let left = full_payloads(whole, mtu);
    let right = full_payloads(head, mtu) + full_payloads(carried, mtu);
    assert(left.len() == right.len());
    assert forall|i: int| 0 <= i < left.len() implies left[i] == right[i] by {
        assert((i + 1) * m == i * m + m) by (nonlinear_arith);
        assert(0 <= i * m) by (nonlinear_arith)
            requires
                0 <= i,
                0 < m,
        ;
        if i < q {
            assert((i + 1) * m <= q * m) by (nonlinear_arith)
                requires
                    i + 1 <= q,
                    0 < m,
            ;
            assert(whole.subrange(i * m, (i + 1) * m) =~= head.subrange(i * m, (i + 1) * m));
        } else {
            let k = i - q;
            assert(i * m == q * m + k * m) by (nonlinear_arith)
                requires
                    i == q + k,
            ;
            assert((k + 1) * m == k * m + m) by (nonlinear_arith);
            assert((k + 1) * m <= p * m) by (nonlinear_arith)
                requires
                    k + 1 <= p,
                    0 < m,
            ;
            assert(0 <= k * m) by (nonlinear_arith)
                requires
                    0 <= k,
                    0 < m,
            ;
            assert(whole.subrange(i * m, (i + 1) * m) =~= carried.subrange(k * m, (k + 1) * m));
        }
    }
    assert(left =~= right);
    assert(remainder(whole, mtu) =~= remainder(carried, mtu));
}

} // verus!
