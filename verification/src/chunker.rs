//! The sending side: a byte stream goes in, frames come out.

use crate::address::HardwareAddress;
use crate::chunking::{
    full_payloads, lemma_count_from_parts, lemma_cut_in_pieces, lemma_payloads_are_full_then_rest,
    payloads, remainder,
};
use crate::config::SessionConfig;
use crate::frame::{frame_views, Frame, FrameView};
use vstd::arithmetic::div_mod::lemma_fundamental_div_mod;
use vstd::prelude::*;
use vstd::slice::{slice_subrange, slice_to_vec};

verus! {

/// The frame that carries `payload` from `source` to `destination`. Its type
/// tag is the length of the payload: the MTU for a full frame, the number of
/// bytes left for the short frame that ends a stream.
pub open spec fn data_frame(
    source: HardwareAddress,
    destination: HardwareAddress,
    payload: Seq<u8>,
) -> FrameView {
    FrameView { source, destination, type_tag: payload.len() as u16, payload }
}

/// The frames that carry a sequence of payloads, in order.
pub open spec fn data_frames(
    source: HardwareAddress,
    destination: HardwareAddress,
    payloads: Seq<Seq<u8>>,
) -> Seq<FrameView> {
    payloads.map_values(|p: Seq<u8>| data_frame(source, destination, p))
}

/// The frames that a session with the settings `mtu`, `source` and
/// `destination` sends for `stream`.
pub open spec fn stream_frames(
    stream: Seq<u8>,
    mtu: nat,
    source: HardwareAddress,
    destination: HardwareAddress,
) -> Seq<FrameView> {
    data_frames(source, destination, payloads(stream, mtu))
}

/// The bytes of a sequence of reads, joined in order.
pub open spec fn joined(reads: Seq<Vec<u8>>) -> Seq<u8> {
    reads.map_values(|r: Vec<u8>| r@).flatten()
}

/// Cuts a byte stream that arrives piece by piece into frames.
///
/// Bytes are handed over with [`Chunker::feed`], which gives back every frame
/// that has become full; [`Chunker::finish`] gives the short frame that ends
/// the stream. Between calls fewer than MTU bytes are held back.
pub struct Chunker {
    mtu: u16,
    source: HardwareAddress,
    destination: HardwareAddress,
    pending: Vec<u8>,
}

/// The mathematical content of a [`Chunker`].
pub struct ChunkerView {
    /// Most payload bytes that one frame carries.
    pub mtu: nat,
    /// Source address of every frame made.
    pub source: HardwareAddress,
    /// Destination address of every frame made.
    pub destination: HardwareAddress,
    /// Bytes taken in and not yet sent.
    pub pending: Seq<u8>,
}

impl View for Chunker {
    type V = ChunkerView;

    closed spec fn view(&self) -> ChunkerView {
        ChunkerView {
            mtu: self.mtu as nat,
            source: self.source,
            destination: self.destination,
            pending: self.pending@,
        }
    }
}

impl Chunker {
    #[verifier::type_invariant]
    spec fn holds_less_than_a_frame(&self) -> bool {
        self.mtu > 0 && self.pending@.len() < self.mtu
    }

    /// A chunker for the session `config`, with nothing taken in yet.
    pub fn new(config: &SessionConfig) -> (chunker: Chunker)
        ensures
            chunker@ == (ChunkerView {
                mtu: config@.mtu,
                source: config@.local_address,
                destination: config@.destination_address,
                pending: Seq::empty(),
            }),
            0 < chunker@.mtu <= u16::MAX,
    {
        Chunker {
            mtu: config.mtu(),
            source: config.local_address(),
            destination: config.destination_address(),
            pending: Vec::new(),
        }
    }

    /// Most payload bytes that one frame carries; never zero.
    pub fn mtu(&self) -> (mtu: u16)
        ensures
            mtu == self@.mtu,
            mtu > 0,
    {
        proof {
            use_type_invariant(self);
        }
        self.mtu
    }

    /// Number of bytes taken in and not yet sent; always less than the MTU.
    pub fn pending_len(&self) -> (len: usize)
        ensures
            len == self@.pending.len(),
            len < self@.mtu,
    {
        proof {
            use_type_invariant(self);
        }
        self.pending.len()
    }

    /// Takes in the next bytes of the stream and gives back, in order, the
    /// frames that have become full. What does not fill a frame is held back.
    pub fn feed(&mut self, bytes: &[u8]) -> (frames: Vec<Frame>)
        ensures
            final(self)@ == (ChunkerView {
                pending: remainder(old(self)@.pending + bytes@, old(self)@.mtu),
                ..old(self)@
            }),
            frame_views(frames@) == data_frames(
                old(self)@.source,
                old(self)@.destination,
                full_payloads(old(self)@.pending + bytes@, old(self)@.mtu),
            ),
    {
        proof {
            use_type_invariant(&*self);
        }
        let mtu: usize = self.mtu as usize;
        let source = self.source;
        let destination = self.destination;
        let mut data: Vec<u8> = Vec::new();
        data.extend_from_slice(self.pending.as_slice());
        data.extend_from_slice(bytes);
        assert(data@ =~= old(self)@.pending + bytes@);
        let ghost full = full_payloads(data@, mtu as nat);
        let mut frames: Vec<Frame> = Vec::new();
        let mut start: usize = 0;
        proof {
            assert(0 * mtu == 0);
        }
        while data.len() - start >= mtu
            invariant
                0 < mtu <= u16::MAX,
                mtu == self.mtu,
                start <= data.len(),
                start == frames.len() * mtu,
                frames.len() <= full.len(),
                full == full_payloads(data@, mtu as nat),
                frame_views(frames@) == data_frames(
                    source,
                    destination,
                    full.take(frames.len() as int),
                ),
            decreases data.len() - start,
        {
            let end: usize = start + mtu;
            let ghost n = frames.len() as int;
            proof {
                assert((n + 1) * mtu == n * mtu + mtu) by (nonlinear_arith);
                let len = data.len() as int;
                let m = mtu as int;
                lemma_fundamental_div_mod(len, m);
                assert(n + 1 <= len / m) by (nonlinear_arith)
                    requires
                        (n + 1) * m <= len,
                        len == m * (len / m) + len % m,
                        len % m < m,
                        0 < m,
                ;
            }
            let payload = slice_to_vec(slice_subrange(data.as_slice(), start, end));
            let frame = Frame { source, destination, type_tag: self.mtu, payload };
            frames.push(frame);
            start = end;
            proof {
                assert(data_frames(source, destination, full.take(n + 1)) =~= data_frames(
                    source,
                    destination,
                    full.take(n),
                ).push(data_frame(source, destination, full[n])));
            }
        }
        proof {
            lemma_count_from_parts(
                data.len() as nat,
                mtu as nat,
                frames.len() as nat,
                (data.len() - start) as nat,
            );
        }
        let rest = data.split_off(start);
        self.pending = rest;
        frames
    }

    /// Ends the stream: gives the frame that carries what was held back, or
    /// nothing when nothing was. An empty frame is never made.
    pub fn finish(self) -> (last: Option<Frame>)
        ensures
            self@.pending.len() == 0 ==> last is None,
            self@.pending.len() > 0 ==> last is Some && last->0@ == data_frame(
                self@.source,
                self@.destination,
                self@.pending,
            ),
    {
        proof {
            use_type_invariant(&self);
        }
        let len = self.pending.len();
        if len == 0 {
            None
        } else {
            Some(
                Frame {
                    source: self.source,
                    destination: self.destination,
                    type_tag: len as u16,
                    payload: self.pending,
                },
            )
        }
    }
}

/// Ends a stream whose full frames are already in `frames`: adds the short
/// frame that carries what `chunker` held back, if it held anything.
fn end_stream(chunker: Chunker, frames: &mut Vec<Frame>, Ghost(stream): Ghost<Seq<u8>>)
    requires
        chunker@.mtu > 0,
        chunker@.pending == remainder(stream, chunker@.mtu),
        frame_views(old(frames)@) == data_frames(
            chunker@.source,
            chunker@.destination,
            full_payloads(stream, chunker@.mtu),
        ),
    ensures
        frame_views(final(frames)@) == stream_frames(
            stream,
            chunker@.mtu,
            chunker@.source,
            chunker@.destination,
        ),
{
    let ghost full = frames@;
    let ghost expected = stream_frames(
        stream,
        chunker@.mtu,
        chunker@.source,
        chunker@.destination,
    );
    proof {
        lemma_payloads_are_full_then_rest(stream, chunker@.mtu);
    }
    match chunker.finish() {
        Some(last) => {
            frames.push(last);
            proof {
                assert(expected =~= frame_views(full).push(last@));
            }
        },
        None => {},
    }
}

/// Frames a whole stream held in memory: every full payload in order, then
/// the short one that is left, if any.
pub fn chunk_stream(stream: &[u8], config: &SessionConfig) -> (frames: Vec<Frame>)
    ensures
        frame_views(frames@) == stream_frames(
            stream@,
            config@.mtu,
            config@.local_address,
            config@.destination_address,
        ),
{
    let mut chunker = Chunker::new(config);
    let mut frames = chunker.feed(stream);
    end_stream(chunker, &mut frames, Ghost(stream@));
    frames
}

/// Frames a stream that arrives as a sequence of reads, feeding each read to
/// a [`Chunker`] as it comes. The frames are those of the reads joined: where
/// one read ends and the next begins leaves no trace.
pub fn chunk_reads(reads: &Vec<Vec<u8>>, config: &SessionConfig) -> (frames: Vec<Frame>)
    ensures
        frame_views(frames@) == stream_frames(
            joined(reads@),
            config@.mtu,
            config@.local_address,
            config@.destination_address,
        ),
{
    let mut chunker = Chunker::new(config);
    let mut frames: Vec<Frame> = Vec::new();
    let ghost mtu = config@.mtu;
    let ghost source = config@.local_address;
    let ghost destination = config@.destination_address;
    let mut i: usize = 0;
    proof {
        lemma_count_from_parts(0, mtu, 0, 0);
        assert(chunker@.pending =~= remainder(joined(reads@.take(0)), mtu));
        assert(frame_views(frames@) =~= data_frames(
            source,
            destination,
            full_payloads(joined(reads@.take(0)), mtu),
        ));
    }
    while i < reads.len()
        invariant
            i <= reads.len(),
            mtu > 0,
            chunker@ == (ChunkerView {
                mtu,
                source,
                destination,
                pending: remainder(joined(reads@.take(i as int)), mtu),
            }),
            frame_views(frames@) == data_frames(
                source,
                destination,
                full_payloads(joined(reads@.take(i as int)), mtu),
            ),
        decreases reads.len() - i,
    {
        let ghost before = frames@;
        let ghost seen = joined(reads@.take(i as int));
        let mut fresh = chunker.feed(reads[i].as_slice());
        let ghost added = fresh@;
        frames.append(&mut fresh);
        proof {
            let views = reads@.take(i as int).map_values(|r: Vec<u8>| r@);
            assert(reads@.take(i + 1).map_values(|r: Vec<u8>| r@) =~= views.push(reads@[i as int]@));
            Seq::lemma_flatten_push(views, reads@[i as int]@);
            lemma_cut_in_pieces(seen, reads@[i as int]@, mtu);
            assert(data_frames(
                source,
                destination,
                full_payloads(seen, mtu) + full_payloads(
                    remainder(seen, mtu) + reads@[i as int]@,
                    mtu,
                ),
            ) =~= frame_views(before) + frame_views(added));
        }
        i += 1;
    }
    assert(reads@.take(i as int) =~= reads@);
    end_stream(chunker, &mut frames, Ghost(joined(reads@)));
    frames
}

} // verus!
