//! The receiving side: frames go in, the bytes they carry come out.
//!
//! The reassembler does not write anywhere itself. For every frame it says
//! what is to be done to the output sink: write the payload, then flush, so
//! that received data is visible at once.

use crate::frame::{frame_views, payloads_of, Frame, HEADER_LEN};
use vstd::prelude::*;
use vstd::slice::slice_to_vec;

verus! {

/// One thing to do to the output sink.
#[derive(Clone, Debug, PartialEq, Eq)]
pub enum SinkCommand {
    /// Write these bytes, all of them, and nothing else.
    Write(Vec<u8>),
    /// Flush what was written.
    Flush,
}

/// The mathematical content of a [`SinkCommand`].
pub enum SinkCommandView {
    Write(Seq<u8>),
    Flush,
}

impl View for SinkCommand {
    type V = SinkCommandView;

    open spec fn view(&self) -> SinkCommandView {
        match self {
            SinkCommand::Write(bytes) => SinkCommandView::Write(bytes@),
            SinkCommand::Flush => SinkCommandView::Flush,
        }
    }
}

/// The views of a sequence of commands, in order.
pub open spec fn command_views(commands: Seq<SinkCommand>) -> Seq<SinkCommandView> {
    commands.map_values(|c: SinkCommand| c@)
}

/// What is done to the sink for a sequence of payloads: for each, in order,
/// one write of exactly that payload, followed by one flush.
pub open spec fn delivery(payloads: Seq<Seq<u8>>) -> Seq<SinkCommandView> {
    Seq::new(
        2 * payloads.len(),
        |i: int|
            if i % 2 == 0 {
                SinkCommandView::Write(payloads[i / 2])
            } else {
                SinkCommandView::Flush
            },
    )
}

/// The bytes that one command adds to the sink.
pub open spec fn bytes_of(command: SinkCommandView) -> Seq<u8> {
    match command {
        SinkCommandView::Write(bytes) => bytes,
        SinkCommandView::Flush => Seq::empty(),
    }
}

/// The byte stream that a sink holds once the commands have been carried
/// out in order.
pub open spec fn written(commands: Seq<SinkCommandView>) -> Seq<u8> {
    commands.map_values(|c: SinkCommandView| bytes_of(c)).flatten()
}

/// What to do to the sink for one frame: write its payload, stripped of
/// addresses and type tag, then flush. An empty payload is written as no
/// bytes and still flushed.
pub fn deliver(frame: &Frame) -> (commands: Vec<SinkCommand>)
    ensures
        command_views(commands@) == delivery(seq![frame@.payload]),
{
    let mut commands: Vec<SinkCommand> = Vec::new();
    commands.push(SinkCommand::Write(slice_to_vec(frame.payload.as_slice())));
    commands.push(SinkCommand::Flush);
    commands
}

/// What to do to the sink for the raw bytes of one received frame. Every
/// frame is taken as data for the stream, whatever its addresses and type
/// tag. Bytes too short to hold a frame header give nothing.
pub fn receive(raw: &[u8]) -> (commands: Option<Vec<SinkCommand>>)
    ensures
        raw@.len() < HEADER_LEN ==> commands is None,
        raw@.len() >= HEADER_LEN ==> commands is Some && command_views(commands->0@) == delivery(
            seq![raw@.skip(HEADER_LEN as int)],
        ),
{
    match Frame::decode(raw) {
        Some(frame) => Some(deliver(&frame)),
        None => None,
    }
}

/// What to do to the sink for a sequence of frames: the payloads are written
/// in the order of the frames, each write followed by a flush, so there are
/// as many writes, and as many flushes, as frames.
pub fn reassemble(frames: &Vec<Frame>) -> (commands: Vec<SinkCommand>)
    ensures
        command_views(commands@) == delivery(payloads_of(frame_views(frames@))),
{
    let ghost all = payloads_of(frame_views(frames@));
    let mut commands: Vec<SinkCommand> = Vec::new();
    let mut i: usize = 0;
    while i < frames.len()
        invariant
            i <= frames.len(),
            all == payloads_of(frame_views(frames@)),
            command_views(commands@) == delivery(all.take(i as int)),
        decreases frames.len() - i,
    {
        let mut step = deliver(&frames[i]);
        commands.append(&mut step);
        proof {
            assert(delivery(all.take(i + 1)) =~= delivery(all.take(i as int)) + delivery(
                seq![all[i as int]],
            ));
        }
        i += 1;
    }
    commands
}

/// Carries the commands out on a sink held in memory and gives back the
/// byte stream that it then holds.
pub fn sink_contents(commands: &Vec<SinkCommand>) -> (stream: Vec<u8>)
    ensures
        stream@ == written(command_views(commands@)),
{
    let ghost all = command_views(commands@).map_values(|c: SinkCommandView| bytes_of(c));
    let mut stream: Vec<u8> = Vec::new();
    let mut i: usize = 0;
    while i < commands.len()
        invariant
            i <= commands.len(),
            all == command_views(commands@).map_values(|c: SinkCommandView| bytes_of(c)),
            stream@ == all.take(i as int).flatten(),
        decreases commands.len() - i,
    {
        match &commands[i] {
            SinkCommand::Write(bytes) => {
                stream.extend_from_slice(bytes.as_slice());
            },
            SinkCommand::Flush => {},
        }
        proof {
            assert(all.take(i + 1) =~= all.take(i as int).push(all[i as int]));
            Seq::lemma_flatten_push(all.take(i as int), all[i as int]);
        }
        i += 1;
    }
    assert(all.take(i as int) =~= all);
    stream
}

/// The writes of a delivery, joined in order, are the payloads joined in
/// order: the sink receives every payload, whole, in the order of the
/// frames, and nothing else.
pub proof fn lemma_delivery_writes_payloads(payloads: Seq<Seq<u8>>)
    ensures
        written(delivery(payloads)) == payloads.flatten(),
    decreases payloads.len(),
{
    let pieces = delivery(payloads).map_values(|c: SinkCommandView| bytes_of(c));
    if payloads.len() > 0 {
        let front = payloads.drop_last();
        let front_pieces = delivery(front).map_values(|c: SinkCommandView| bytes_of(c));
        lemma_delivery_writes_payloads(front);
        assert(pieces =~= front_pieces.push(payloads.last()).push(Seq::empty()));
        Seq::lemma_flatten_push(front_pieces, payloads.last());
        Seq::lemma_flatten_push(front_pieces.push(payloads.last()), Seq::empty());
        assert(payloads =~= front.push(payloads.last()));
        Seq::lemma_flatten_push(front, payloads.last());
    }
}

} // verus!
