//! Ethernet frames and their layout on the wire.

use crate::address::HardwareAddress;
use pnet::packet::ethernet::{EtherType, Ethernet, EthernetPacket, MutableEthernetPacket};
use pnet::packet::FromPacket;
use pnet::util::MacAddr;
use vstd::prelude::*;

verus! {

/// Bytes taken by the two addresses and the type tag in front of the payload.
pub const HEADER_LEN: usize = 14;

/// One raw layer-2 unit.
#[derive(Clone, Debug, PartialEq, Eq)]
pub struct Frame {
    /// Address of the sending interface.
    pub source: HardwareAddress,
    /// Address the frame is sent to.
    pub destination: HardwareAddress,
    /// The 16-bit type field; a carrier value that receivers do not interpret.
    pub type_tag: u16,
    /// The bytes carried.
    pub payload: Vec<u8>,
}

/// The mathematical content of a [`Frame`].
pub struct FrameView {
    pub source: HardwareAddress,
    pub destination: HardwareAddress,
    pub type_tag: u16,
    pub payload: Seq<u8>,
}

impl View for Frame {
    type V = FrameView;

    open spec fn view(&self) -> FrameView {
        FrameView {
            source: self.source,
            destination: self.destination,
            type_tag: self.type_tag,
            payload: self.payload@,
        }
    }
}

/// The views of a sequence of frames, in order.
pub open spec fn frame_views(frames: Seq<Frame>) -> Seq<FrameView> {
    frames.map_values(|f: Frame| f@)
}

/// The payloads of a sequence of frames, in order.
pub open spec fn payloads_of(frames: Seq<FrameView>) -> Seq<Seq<u8>> {
    frames.map_values(|f: FrameView| f.payload)
}

/// The two bytes of a type tag, most significant first.
pub open spec fn tag_bytes(tag: u16) -> Seq<u8> {
    seq![(tag / 256) as u8, (tag % 256) as u8]
}

/// The bytes of a frame on the wire: destination, source, type tag in
/// network byte order, then the payload.
pub open spec fn wire_image(frame: FrameView) -> Seq<u8> {
    frame.destination.octet_seq() + frame.source.octet_seq() + tag_bytes(frame.type_tag)
        + frame.payload
}

/// The frame that a run of raw bytes holds, if it is long enough to hold a
/// header.
pub open spec fn wire_parse(raw: Seq<u8>) -> Option<FrameView> {
    if raw.len() < HEADER_LEN {
        None
    } else {
        Some(
            FrameView {
                destination: HardwareAddress(raw[0], raw[1], raw[2], raw[3], raw[4], raw[5]),
                source: HardwareAddress(raw[6], raw[7], raw[8], raw[9], raw[10], raw[11]),
                type_tag: (raw[12] * 256 + raw[13]) as u16,
                payload: raw.skip(HEADER_LEN as int),
            },
        )
    }
}

/// Lays a frame out with `pnet`: sizes a buffer with
/// `EthernetPacket::packet_size` and fills it with
/// `MutableEthernetPacket::populate`.
///
/// Trusted: the buffer holds the destination, the source, the type tag in
/// network byte order and the payload, in that order and nothing else.
#[verifier::external_body]
fn ethernet_encode(frame: &Frame) -> (bytes: Vec<u8>)
    ensures
        bytes@ == wire_image(frame@),
{
    let record = Ethernet {
        destination: MacAddr::from(frame.destination.octets()),
        source: MacAddr::from(frame.source.octets()),
        ethertype: EtherType::new(frame.type_tag),
        payload: frame.payload.clone(),
    };
    let mut bytes = vec![0u8; EthernetPacket::packet_size(&record)];
    MutableEthernetPacket::new(&mut bytes[..]).unwrap().populate(&record);
    bytes
}

/// Reads a frame with `pnet`: `EthernetPacket::new` followed by
/// `from_packet`.
///
/// Trusted: fewer than 14 bytes give nothing; otherwise the first six bytes
/// are the destination, the next six the source, the next two the type tag in
/// network byte order, and all that follows is the payload.
#[verifier::external_body]
fn ethernet_decode(raw: &[u8]) -> (frame: Option<Frame>)
    ensures
        match frame {
            Some(f) => wire_parse(raw@) == Some(f@),
            None => wire_parse(raw@) is None,
        },
{
    EthernetPacket::new(raw).map(|packet| packet.from_packet()).map(
        |record|
            Frame {
                source: HardwareAddress::from_octets(record.source.octets()),
                destination: HardwareAddress::from_octets(record.destination.octets()),
                type_tag: record.ethertype.0,
                payload: record.payload,
            },
    )
}

impl Frame {
    /// The bytes to hand to the transport for this frame.
    pub fn encode(&self) -> (bytes: Vec<u8>)
        ensures
            bytes@ == wire_image(self@),
            bytes@.len() == HEADER_LEN + self.payload@.len(),
    {
        ethernet_encode(self)
    }

    /// Reads a frame from the bytes that the transport handed over. Anything
    /// of at least [`HEADER_LEN`] bytes is a frame; shorter input is not.
    pub fn decode(raw: &[u8]) -> (frame: Option<Frame>)
        ensures
            match frame {
                Some(f) => wire_parse(raw@) == Some(f@),
                None => raw@.len() < HEADER_LEN,
            },
            frame is Some <==> raw@.len() >= HEADER_LEN,
    {
        ethernet_decode(raw)
    }
}

/// Decoding undoes encoding: the wire image of any frame parses back to that
/// frame.
pub proof fn lemma_parse_inverts_image(frame: FrameView)
    ensures
        wire_parse(wire_image(frame)) == Some(frame),
{
    let raw = wire_image(frame);
    let t = frame.type_tag;
    assert(raw.skip(HEADER_LEN as int) =~= frame.payload);
}

/// Encoding undoes decoding: the frame parsed from a run of raw bytes has
/// those bytes as its wire image, so nothing of what was received is lost.
pub proof fn lemma_image_inverts_parse(raw: Seq<u8>)
    requires
        raw.len() >= HEADER_LEN,
    ensures
        wire_image(wire_parse(raw)->0) == raw,
{
    let frame = wire_parse(raw)->0;
    let tag = raw[12] * 256 + raw[13];
}

} // verus!
