use ethercat::address::HardwareAddress;
use ethercat::chunker::{chunk_reads, chunk_stream, Chunker};
use ethercat::config::{SessionConfig, DEFAULT_MTU};
use ethercat::frame::Frame;

const LOCAL: HardwareAddress = HardwareAddress(0x02, 0x00, 0x00, 0x00, 0x00, 0x01);
const PEER: HardwareAddress = HardwareAddress(0x02, 0x00, 0x00, 0x00, 0x00, 0x02);

fn config(mtu: u16) -> SessionConfig {
    SessionConfig::new(mtu, LOCAL, PEER, false).unwrap()
}

fn pattern(len: usize) -> Vec<u8> {
    (0..len).map(|i| (i * 7 + 3) as u8).collect()
}

fn joined_payloads(frames: &[Frame]) -> Vec<u8> {
    let mut all = Vec::new();
    for frame in frames {
        all.extend_from_slice(&frame.payload);
    }
    all
}

#[test]
fn two_full_frames_and_no_remainder() {
    let input = pattern(3000);
    let frames = chunk_stream(&input, &config(1500));
    assert_eq!(frames.len(), 2);
    assert_eq!(frames[0].payload.len(), 1500);
    assert_eq!(frames[1].payload.len(), 1500);
    assert_eq!(frames[0].payload, input[..1500].to_vec());
    assert_eq!(frames[1].payload, input[1500..].to_vec());
}

#[test]
fn one_byte_short_of_a_frame() {
    let input = pattern(1499);
    let frames = chunk_stream(&input, &config(1500));
    assert_eq!(frames.len(), 1);
    assert_eq!(frames[0].payload.len(), 1499);
    assert_eq!(frames[0].payload, input);
    assert_eq!(frames[0].type_tag, 1499);
}

#[test]
fn exactly_one_frame_has_no_empty_trailer() {
    let input = pattern(1500);
    let frames = chunk_stream(&input, &config(1500));
    assert_eq!(frames.len(), 1);
    assert_eq!(frames[0].payload.len(), 1500);
    assert_eq!(frames[0].payload, input);
}

#[test]
fn empty_input_sends_nothing() {
    let frames = chunk_stream(&[], &config(1500));
    assert!(frames.is_empty());
    let frames = chunk_reads(&vec![], &config(1500));
    assert!(frames.is_empty());
    let frames = chunk_reads(&vec![vec![], vec![]], &config(1500));
    assert!(frames.is_empty());
}

#[test]
fn frame_count_follows_length_and_mtu() {
    for mtu in [1u16, 2, 3, 7, 64] {
        for len in 0usize..200 {
            let input = pattern(len);
            let frames = chunk_stream(&input, &config(mtu));
            let m = mtu as usize;
            let expected = len / m + if len % m != 0 { 1 } else { 0 };
            assert_eq!(frames.len(), expected, "len {} mtu {}", len, mtu);
            for frame in frames.iter().take(len / m) {
                assert_eq!(frame.payload.len(), m);
            }
            if len % m != 0 {
                assert_eq!(frames.last().unwrap().payload.len(), len % m);
            }
        }
    }
}

#[test]
fn exact_frames_of_ten_bytes_cut_by_four() {
    let input: Vec<u8> = vec![10, 11, 12, 13, 14, 15, 16, 17, 18, 19];
    let frames = chunk_stream(&input, &config(4));
    let expected = vec![
        Frame { source: LOCAL, destination: PEER, type_tag: 4, payload: vec![10, 11, 12, 13] },
        Frame { source: LOCAL, destination: PEER, type_tag: 4, payload: vec![14, 15, 16, 17] },
        Frame { source: LOCAL, destination: PEER, type_tag: 2, payload: vec![18, 19] },
    ];
    assert_eq!(frames, expected);
}

#[test]
fn payloads_joined_give_the_input_back() {
    for mtu in [1u16, 5, 13, 1500] {
        for len in [0usize, 1, 4, 5, 6, 12, 13, 14, 1499, 1500, 1501, 4000] {
            let input = pattern(len);
            let frames = chunk_stream(&input, &config(mtu));
            assert_eq!(joined_payloads(&frames), input);
        }
    }
}

#[test]
fn only_the_last_frame_may_be_short() {
    let input = pattern(1000);
    let frames = chunk_stream(&input, &config(96));
    assert_eq!(frames.len(), 11);
    for frame in &frames[..frames.len() - 1] {
        assert_eq!(frame.payload.len(), 96);
        assert_eq!(frame.type_tag, 96);
    }
    assert_eq!(frames[10].payload.len(), 1000 - 10 * 96);
    assert_eq!(frames[10].type_tag, 40);
}

#[test]
fn no_frame_is_empty() {
    for len in 0usize..40 {
        for frame in chunk_stream(&pattern(len), &config(8)) {
            assert!(!frame.payload.is_empty());
        }
    }
}

#[test]
fn chunking_twice_gives_the_same_frames() {
    let input = pattern(5000);
    let first = chunk_stream(&input, &config(DEFAULT_MTU));
    let second = chunk_stream(&input, &config(DEFAULT_MTU));
    assert_eq!(first, second);
    let first: Vec<Vec<u8>> = first.into_iter().map(|f| f.payload).collect();
    let second: Vec<Vec<u8>> = second.into_iter().map(|f| f.payload).collect();
    assert_eq!(first, second);
}

#[test]
fn how_the_input_arrives_leaves_no_trace() {
    let input = pattern(1000);
    let whole = chunk_stream(&input, &config(64));
    for piece in [1usize, 3, 63, 64, 65, 200, 999, 1000, 5000] {
        let reads: Vec<Vec<u8>> = input.chunks(piece).map(|c| c.to_vec()).collect();
        assert_eq!(chunk_reads(&reads, &config(64)), whole, "piece {}", piece);
    }
    let mut reads: Vec<Vec<u8>> = vec![vec![]];
    reads.push(input[..10].to_vec());
    reads.push(vec![]);
    reads.push(input[10..].to_vec());
    assert_eq!(chunk_reads(&reads, &config(64)), whole);
}

#[test]
fn frames_carry_the_session_addresses() {
    for frame in chunk_stream(&pattern(100), &config(30)) {
        assert_eq!(frame.source, LOCAL);
        assert_eq!(frame.destination, PEER);
    }
}

#[test]
fn feed_gives_full_frames_and_holds_the_rest() {
    let mut chunker = Chunker::new(&config(4));
    assert_eq!(chunker.mtu(), 4);
    assert_eq!(chunker.pending_len(), 0);
    assert!(chunker.feed(&[1, 2, 3]).is_empty());
    assert_eq!(chunker.pending_len(), 3);
    let frames = chunker.feed(&[4, 5, 6, 7, 8, 9]);
    assert_eq!(frames.len(), 2);
    assert_eq!(frames[0].payload, vec![1, 2, 3, 4]);
    assert_eq!(frames[1].payload, vec![5, 6, 7, 8]);
    assert_eq!(frames[0].type_tag, 4);
    assert_eq!(chunker.pending_len(), 1);
    assert!(chunker.feed(&[]).is_empty());
    assert_eq!(chunker.pending_len(), 1);
    let last = chunker.finish().unwrap();
    assert_eq!(last.payload, vec![9]);
    assert_eq!(last.type_tag, 1);
    assert_eq!(last.source, LOCAL);
    assert_eq!(last.destination, PEER);
}

#[test]
fn finish_with_nothing_held_gives_nothing() {
    let chunker = Chunker::new(&config(4));
    assert_eq!(chunker.finish(), None);
    let mut chunker = Chunker::new(&config(4));
    assert_eq!(chunker.feed(&[1, 2, 3, 4]).len(), 1);
    assert_eq!(chunker.finish(), None);
}

#[test]
fn largest_mtu_fills_the_type_tag() {
    let input = pattern(70000);
    let frames = chunk_stream(&input, &config(u16::MAX));
    assert_eq!(frames.len(), 2);
    assert_eq!(frames[0].payload.len(), 65535);
    assert_eq!(frames[0].type_tag, 65535);
    assert_eq!(frames[1].payload.len(), 70000 - 65535);
    assert_eq!(frames[1].type_tag, (70000 - 65535) as u16);
}

#[test]
fn configuration_refuses_a_zero_mtu() {
    assert_eq!(SessionConfig::new(0, LOCAL, PEER, false), None);
    let config = SessionConfig::new(1, LOCAL, PEER, true).unwrap();
    assert_eq!(config.mtu(), 1);
    assert_eq!(config.local_address(), LOCAL);
    assert_eq!(config.destination_address(), PEER);
    assert!(config.listen());
    assert_eq!(DEFAULT_MTU, 1500);
}
