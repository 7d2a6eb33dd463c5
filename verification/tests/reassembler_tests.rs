use ethercat::address::HardwareAddress;
use ethercat::chunker::chunk_stream;
use ethercat::config::SessionConfig;
use ethercat::frame::Frame;
use ethercat::reassembler::{deliver, reassemble, receive, sink_contents, SinkCommand};

const A: HardwareAddress = HardwareAddress(2, 0, 0, 0, 0, 1);
const B: HardwareAddress = HardwareAddress(2, 0, 0, 0, 0, 2);

fn frame(payload: &[u8]) -> Frame {
    Frame { source: A, destination: B, type_tag: payload.len() as u16, payload: payload.to_vec() }
}

#[test]
fn three_frames_one_of_them_empty() {
    let frames = vec![frame(b"AB"), frame(b""), frame(b"CD")];
    let commands = reassemble(&frames);
    assert_eq!(
        commands,
        vec![
            SinkCommand::Write(b"AB".to_vec()),
            SinkCommand::Flush,
            SinkCommand::Write(vec![]),
            SinkCommand::Flush,
            SinkCommand::Write(b"CD".to_vec()),
            SinkCommand::Flush,
        ]
    );
    assert_eq!(sink_contents(&commands), b"ABCD".to_vec());
    let flushes = commands.iter().filter(|c| **c == SinkCommand::Flush).count();
    assert_eq!(flushes, 3);
}

#[test]
fn every_write_is_followed_by_its_flush() {
    let frames: Vec<Frame> = (0u8..20).map(|i| frame(&vec![i; i as usize])).collect();
    let commands = reassemble(&frames);
    assert_eq!(commands.len(), 2 * frames.len());
    for (k, f) in frames.iter().enumerate() {
        assert_eq!(commands[2 * k], SinkCommand::Write(f.payload.clone()));
        assert_eq!(commands[2 * k + 1], SinkCommand::Flush);
    }
}

#[test]
fn no_frames_no_commands() {
    assert!(reassemble(&vec![]).is_empty());
    assert!(sink_contents(&vec![]).is_empty());
}

#[test]
fn deliver_strips_addresses_and_tag() {
    let f = Frame { source: B, destination: A, type_tag: 0x0800, payload: vec![9, 8, 7] };
    assert_eq!(deliver(&f), vec![SinkCommand::Write(vec![9, 8, 7]), SinkCommand::Flush]);
}

#[test]
fn receive_takes_every_frame_as_data() {
    let raw: Vec<u8> = (0..18).collect();
    assert_eq!(
        receive(&raw),
        Some(vec![SinkCommand::Write(vec![14, 15, 16, 17]), SinkCommand::Flush])
    );
    assert_eq!(receive(&raw[..14]), Some(vec![SinkCommand::Write(vec![]), SinkCommand::Flush]));
}

#[test]
fn receive_gives_nothing_for_less_than_a_header() {
    assert_eq!(receive(&[]), None);
    assert_eq!(receive(&[0u8; 13]), None);
}

#[test]
fn sink_contents_joins_the_writes() {
    let commands = vec![
        SinkCommand::Flush,
        SinkCommand::Write(vec![1]),
        SinkCommand::Write(vec![2, 3]),
        SinkCommand::Flush,
        SinkCommand::Flush,
        SinkCommand::Write(vec![]),
        SinkCommand::Write(vec![4]),
    ];
    assert_eq!(sink_contents(&commands), vec![1, 2, 3, 4]);
}

#[test]
fn what_is_sent_is_what_arrives() {
    let input: Vec<u8> = (0..5000u32).map(|i| (i * 31 % 256) as u8).collect();
    for mtu in [1u16, 17, 1500, 5000, 6000] {
        let config = SessionConfig::new(mtu, A, B, true).unwrap();
        let sent = chunk_stream(&input, &config);
        let mut commands = Vec::new();
        for f in &sent {
            commands.extend(receive(&f.encode()).unwrap());
        }
        assert_eq!(commands, reassemble(&sent));
        assert_eq!(sink_contents(&commands), input);
    }
}
