//! What holds of every stream, every MTU and every sequence of frames.
//!
//! The proof functions here are stated over [`stream_frames`] and
//! [`delivery`], the definitions that the contracts of the chunker and of the
//! reassembler are written with, so each of them is a statement about what
//! those functions return.

use crate::address::HardwareAddress;
use crate::chunker::{data_frame, data_frames, stream_frames};
use crate::chunking::{
    lemma_only_last_is_short, lemma_payload_lengths, lemma_payloads_join_to_stream, payloads,
};
use crate::frame::{frame_views, payloads_of, Frame, FrameView};
use crate::reassembler::{delivery, lemma_delivery_writes_payloads, written, SinkCommandView};
use vstd::prelude::*;

verus! {

/// The payloads of the frames made for a sequence of payloads are those
/// payloads.
pub proof fn lemma_frames_carry_payloads(
    source: HardwareAddress,
    destination: HardwareAddress,
    payloads: Seq<Seq<u8>>,
)
    ensures
        payloads_of(data_frames(source, destination, payloads)) == payloads,
{
}

/// A stream of `L` bytes sent with an MTU of `M` goes out as `L / M` frames
/// of exactly `M` bytes, followed by one frame of `L % M` bytes when `L` is
/// not a multiple of `M`. No empty frame is sent, so an empty stream sends
/// nothing. Every frame goes from the local address to the destination.
pub proof fn law_frame_count_and_lengths(
    stream: Seq<u8>,
    mtu: nat,
    source: HardwareAddress,
    destination: HardwareAddress,
)
    requires
        mtu > 0,
    ensures
        ({
            let frames = stream_frames(stream, mtu, source, destination);
            let full = stream.len() / mtu;
            let rest = stream.len() % mtu;
            &&& frames.len() == full + (if rest != 0 {
                1nat
            } else {
                0nat
            })
            &&& stream.len() == 0 ==> frames.len() == 0
            &&& forall|i: int| 0 <= i < full ==> (#[trigger] frames[i]).payload.len() == mtu
            &&& rest != 0 ==> frames.last().payload.len() == rest
            &&& forall|i: int| 0 <= i < frames.len() ==> (#[trigger] frames[i]).payload.len() > 0
            &&& forall|i: int|
                0 <= i < frames.len() ==> (#[trigger] frames[i]).source == source
                    && frames[i].destination == destination
        }),
{
    lemma_payload_lengths(stream, mtu);
    let frames = stream_frames(stream, mtu, source, destination);
    let all = payloads(stream, mtu);
    assert forall|i: int| 0 <= i < frames.len() implies (#[trigger] frames[i]).payload == all[i]
        && frames[i].source == source && frames[i].destination == destination by {}
}

/// The type tag of a frame is the number of bytes that it carries: the MTU
/// for every full frame, the length of the remainder for the short frame at
/// the end.
pub proof fn law_type_tag_is_payload_length(
    stream: Seq<u8>,
    mtu: nat,
    source: HardwareAddress,
    destination: HardwareAddress,
    i: int,
)
    requires
        0 < mtu <= u16::MAX,
        0 <= i < stream_frames(stream, mtu, source, destination).len(),
    ensures
        stream_frames(stream, mtu, source, destination)[i].type_tag == stream_frames(
            stream,
            mtu,
            source,
            destination,
        )[i].payload.len(),
        i < stream.len() / mtu ==> stream_frames(stream, mtu, source, destination)[i].type_tag
            == mtu,
{
    lemma_payload_lengths(stream, mtu);
    assert(stream_frames(stream, mtu, source, destination)[i] == data_frame(
        source,
        destination,
        payloads(stream, mtu)[i],
    ));
}

/// The payloads of the frames sent for a stream, joined in the order of the
/// frames, are the stream.
pub proof fn law_payloads_rebuild_stream(
    stream: Seq<u8>,
    mtu: nat,
    source: HardwareAddress,
    destination: HardwareAddress,
)
    requires
        mtu > 0,
    ensures
        payloads_of(stream_frames(stream, mtu, source, destination)).flatten() == stream,
{
    lemma_frames_carry_payloads(source, destination, payloads(stream, mtu));
    lemma_payloads_join_to_stream(stream, mtu);
}

/// No frame but the last carries anything but exactly MTU bytes.
pub proof fn law_only_last_frame_is_short(
    stream: Seq<u8>,
    mtu: nat,
    source: HardwareAddress,
    destination: HardwareAddress,
    i: int,
)
    requires
        mtu > 0,
        0 <= i < stream_frames(stream, mtu, source, destination).len() - 1,
    ensures
        stream_frames(stream, mtu, source, destination)[i].payload.len() == mtu,
{
    lemma_only_last_is_short(stream, mtu, i);
}

/// For a sequence of frames the sink is told to write the payload of the
/// first, flush, write the payload of the second, flush, and so on to the
/// last: as many writes as frames, each followed by its flush, and the stream
/// written is the payloads joined in the order of the frames.
pub proof fn law_delivery_in_order(frames: Seq<FrameView>)
    ensures
        ({
            let commands = delivery(payloads_of(frames));
            &&& commands.len() == 2 * frames.len()
            &&& forall|k: int|
                0 <= k < frames.len() ==> #[trigger] commands[2 * k] == SinkCommandView::Write(
                    frames[k].payload,
                ) && commands[2 * k + 1] == SinkCommandView::Flush
            &&& written(commands) == payloads_of(frames).flatten()
        }),
{
    lemma_delivery_writes_payloads(payloads_of(frames));
}

/// Chunking is repeatable: two runs over the same stream with the same
/// settings give the same frames, byte for byte.
pub proof fn law_chunking_is_repeatable(
    first: Seq<Frame>,
    second: Seq<Frame>,
    stream: Seq<u8>,
    mtu: nat,
    source: HardwareAddress,
    destination: HardwareAddress,
)
    requires
        frame_views(first) == stream_frames(stream, mtu, source, destination),
        frame_views(second) == stream_frames(stream, mtu, source, destination),
    ensures
        frame_views(first) == frame_views(second),
        payloads_of(frame_views(first)) == payloads_of(frame_views(second)),
        first.len() == second.len(),
        forall|i: int| 0 <= i < first.len() ==> (#[trigger] first[i]).payload@ == second[i].payload@,
{
    assert(frame_views(first).len() == first.len());
    assert(frame_views(second).len() == second.len());
    assert forall|i: int| 0 <= i < first.len() implies (#[trigger] first[i]).payload@
        == second[i].payload@ by {
        assert(frame_views(first)[i] == first[i]@);
        assert(frame_views(second)[i] == second[i]@);
    }
}

/// What is chunked on one side and reassembled on the other arrives as it
/// was sent: the sink ends up holding the stream.
pub proof fn law_stream_crosses_unchanged(
    stream: Seq<u8>,
    mtu: nat,
    source: HardwareAddress,
    destination: HardwareAddress,
)
    requires
        mtu > 0,
    ensures
        written(delivery(payloads_of(stream_frames(stream, mtu, source, destination)))) == stream,
{
    law_payloads_rebuild_stream(stream, mtu, source, destination);
    lemma_delivery_writes_payloads(payloads_of(stream_frames(stream, mtu, source, destination)));
}

} // verus!
