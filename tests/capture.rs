use serial_pcap::channel::{channel_of_port, UartTxChannel, CTRL_PORT, NODE_PORT};
use serial_pcap::framing::{decode_frame, encode_frame, DecodeError, HEADER_LEN, MAX_PAYLOAD};
use serial_pcap::reader::SerialPacketReader;
use serial_pcap::record::{encode_run, split_run, CapturedFrame};

fn frames_of(writes: &[(UartTxChannel, Vec<u8>, u64)]) -> Vec<CapturedFrame> {
    let mut frames = Vec::new();
    for (ch, data, t) in writes {
        frames.extend(encode_run(data, *ch, *t).expect("framing"));
    }
    frames
}

fn read_all(r: &mut SerialPacketReader, ch: UartTxChannel) -> Vec<u8> {
    let mut out = Vec::new();
    loop {
        let b = r.read_bytes(ch, 3).expect("readable capture");
        if b.is_empty() {
            return out;
        }
        out.extend_from_slice(&b);
    }
}

#[test]
fn ports_map_to_channels() {
    assert_eq!(channel_of_port(422), Some(UartTxChannel::Ctrl));
    assert_eq!(channel_of_port(1422), Some(UartTxChannel::Node));
    assert_eq!(channel_of_port(1442), Some(UartTxChannel::Node));
    assert_eq!(channel_of_port(1443), None);
    assert_eq!(UartTxChannel::Ctrl.port(), CTRL_PORT);
    assert_eq!(UartTxChannel::Ctrl.peer_port(), NODE_PORT);
    assert_eq!(UartTxChannel::Node.port(), NODE_PORT);
}

#[test]
fn frame_layout_for_each_channel() {
    let f = encode_frame(UartTxChannel::Ctrl, &[0x04, 0x31]).unwrap();
    assert_eq!(f.len(), HEADER_LEN + 2);
    assert_eq!(f[0], 0x45);
    assert_eq!(u16::from_be_bytes([f[2], f[3]]), 30);
    assert_eq!(f[9], 17);
    assert_eq!(&f[12..20], &[127, 0, 0, 1, 127, 0, 0, 2]);
    assert_eq!(u16::from_be_bytes([f[20], f[21]]), 422);
    assert_eq!(u16::from_be_bytes([f[22], f[23]]), 1422);
    assert_eq!(&f[28..], &[0x04, 0x31]);

    let g = encode_frame(UartTxChannel::Node, &[0x06]).unwrap();
    assert_eq!(&g[12..20], &[127, 0, 0, 2, 127, 0, 0, 1]);
    assert_eq!(u16::from_be_bytes([g[20], g[21]]), 1422);
    assert_eq!(u16::from_be_bytes([g[22], g[23]]), 422);
}

#[test]
fn frame_decodes_to_what_was_encoded() {
    let f = encode_frame(UartTxChannel::Node, &[1, 2, 3]).unwrap();
    let (ch, d) = decode_frame(&f, f.len()).unwrap();
    assert_eq!(ch, UartTxChannel::Node);
    assert_eq!(d, vec![1, 2, 3]);
}

#[test]
fn legacy_node_port_reads_as_node() {
    let mut f = encode_frame(UartTxChannel::Node, &[9]).unwrap();
    f[20..22].copy_from_slice(&1442u16.to_be_bytes());
    let (ch, d) = decode_frame(&f, f.len()).unwrap();
    assert_eq!(ch, UartTxChannel::Node);
    assert_eq!(d, vec![9]);
}

#[test]
fn decode_errors() {
    let f = encode_frame(UartTxChannel::Ctrl, &[1, 2]).unwrap();
    assert_eq!(decode_frame(&f, f.len() + 1), Err(DecodeError::Truncated));
    assert_eq!(decode_frame(&[], 0), Err(DecodeError::Malformed));
    assert_eq!(decode_frame(&[0x60, 0, 0], 3), Err(DecodeError::Malformed));

    let mut other = f.clone();
    other[9] = 99;
    assert_eq!(decode_frame(&other, other.len()), Err(DecodeError::NotUdp));

    let mut stranger = f.clone();
    stranger[20..22].copy_from_slice(&5000u16.to_be_bytes());
    assert_eq!(decode_frame(&stranger, stranger.len()), Err(DecodeError::UnknownPort(5000)));
}

#[test]
fn long_run_is_cut_into_four_records() {
    let data: Vec<u8> = (0..(3 * MAX_PAYLOAD + 7)).map(|i| i as u8).collect();
    let recs = split_run(&data, UartTxChannel::Node, 55);
    assert_eq!(recs.len(), 4);
    let lens: Vec<usize> = recs.iter().map(|r| r.data.len()).collect();
    assert_eq!(lens, vec![MAX_PAYLOAD, MAX_PAYLOAD, MAX_PAYLOAD, 7]);
    let mut joined = Vec::new();
    for r in &recs {
        assert_eq!(r.ch, UartTxChannel::Node);
        assert_eq!(r.time_us, 55);
        joined.extend_from_slice(&r.data);
    }
    assert_eq!(joined, data);

    let frames = encode_run(&data, UartTxChannel::Node, 55).unwrap();
    assert_eq!(frames.len(), 4);
    assert_eq!(frames[3].data.len(), HEADER_LEN + 7);
    assert_eq!(frames[0].orig_len, HEADER_LEN + MAX_PAYLOAD);
}

#[test]
fn empty_run_gives_no_record() {
    assert!(split_run(&[], UartTxChannel::Ctrl, 0).is_empty());
    assert!(encode_run(&[], UartTxChannel::Ctrl, 0).unwrap().is_empty());
}

#[test]
fn three_writes_scenario() {
    let t0 = 1_700_000_000_000_000u64;
    let frames = frames_of(&[
        (UartTxChannel::Ctrl, vec![0x04, 0x31, 0x32], t0),
        (UartTxChannel::Node, vec![0x06], t0 + 1000),
        (UartTxChannel::Ctrl, vec![0x04], t0 + 2000),
    ]);
    assert_eq!(frames.len(), 3);

    let mut r = SerialPacketReader::new(frames.iter().map(|f| CapturedFrame {
        data: f.data.clone(),
        orig_len: f.orig_len,
        time_us: f.time_us,
    }).collect());
    let first = r.next_packet().unwrap().unwrap();
    let second = r.next_packet().unwrap().unwrap();
    let third = r.next_packet().unwrap().unwrap();
    assert!(r.next_packet().unwrap().is_none());
    assert_eq!((first.ch, first.data.to_vec(), first.time_us), (UartTxChannel::Ctrl, vec![0x04, 0x31, 0x32], t0));
    assert_eq!((second.ch, second.data.to_vec(), second.time_us), (UartTxChannel::Node, vec![0x06], t0 + 1000));
    assert_eq!((third.ch, third.data.to_vec(), third.time_us), (UartTxChannel::Ctrl, vec![0x04], t0 + 2000));

    let mut r = SerialPacketReader::new(frames);
    assert_eq!(read_all(&mut r, UartTxChannel::Ctrl), vec![0x04, 0x31, 0x32, 0x04]);
    assert_eq!(read_all(&mut r, UartTxChannel::Node), vec![0x06]);
}

#[test]
fn round_trip_with_chunking_and_interleaving() {
    let a: Vec<u8> = (0..400u32).map(|i| (i % 251) as u8).collect();
    let b: Vec<u8> = (0..200u32).map(|i| (i % 13) as u8).collect();
    let frames = frames_of(&[
        (UartTxChannel::Ctrl, a.clone(), 1),
        (UartTxChannel::Node, b.clone(), 2),
        (UartTxChannel::Ctrl, vec![1, 2, 3], 3),
        (UartTxChannel::Node, vec![], 4),
    ]);
    let mut r = SerialPacketReader::new(frames);
    let mut want_a = a.clone();
    want_a.extend([1, 2, 3]);
    assert_eq!(read_all(&mut r, UartTxChannel::Node), b);
    assert_eq!(read_all(&mut r, UartTxChannel::Ctrl), want_a);
}

#[test]
fn read_bytes_respects_max_len_and_isolates_channels() {
    let frames = frames_of(&[
        (UartTxChannel::Node, vec![9, 9], 1),
        (UartTxChannel::Ctrl, vec![1, 2, 3, 4], 2),
    ]);
    let mut r = SerialPacketReader::new(frames);
    assert_eq!(r.read_bytes(UartTxChannel::Ctrl, 3).unwrap().to_vec(), vec![1, 2, 3]);
    assert_eq!(r.read_bytes(UartTxChannel::Ctrl, 3).unwrap().to_vec(), vec![4]);
    assert!(r.read_bytes(UartTxChannel::Ctrl, 3).unwrap().is_empty());
    assert_eq!(r.read_bytes(UartTxChannel::Node, 0).unwrap().to_vec(), Vec::<u8>::new());
    assert_eq!(r.read_bytes(UartTxChannel::Node, 10).unwrap().to_vec(), vec![9, 9]);
}

#[test]
fn bad_record_stops_reading_with_its_error() {
    let mut frames = frames_of(&[(UartTxChannel::Node, vec![5], 1)]);
    frames.insert(0, CapturedFrame { data: vec![1, 2, 3], orig_len: 3, time_us: 0 });
    let mut r = SerialPacketReader::new(frames);
    assert_eq!(r.read_bytes(UartTxChannel::Ctrl, 8).unwrap_err(), DecodeError::Malformed);
    assert_eq!(r.read_bytes(UartTxChannel::Node, 8).unwrap().to_vec(), vec![5]);
}

#[test]
fn test_chatter() {
    // A controller reading and writing parameters and a node answering.
    let read_req: Vec<u8> = vec![0x04, b'2', b'2', b'1', b'1', b'0', b'0', b'2', b'3', 0x05];
    let read_reply: Vec<u8> = vec![0x02, b'0', b'0', b'2', b'3', b'+', b'0', b'0', b'0', b'3', b'3', 0x03, 0x30];
    let write_req: Vec<u8> = vec![0x04, b'3', b'3', b'1', b'1', 0x02, b'0', b'2', b'2', b'3', b'+', b'0', b'0', b'4', b'4', b'2', 0x03, 0x31];
    let ack: Vec<u8> = vec![0x06];
    let mut writes = Vec::new();
    for i in 0..11u64 {
        if i % 2 == 0 {
            writes.push((UartTxChannel::Ctrl, read_req.clone(), i * 10));
            writes.push((UartTxChannel::Node, read_reply.clone(), i * 10 + 5));
        } else {
            writes.push((UartTxChannel::Ctrl, write_req.clone(), i * 10));
            writes.push((UartTxChannel::Node, ack.clone(), i * 10 + 5));
        }
    }
    let frames = frames_of(&writes);
    let mut want_ctrl = Vec::new();
    let mut want_node = Vec::new();
    for (ch, d, _) in &writes {
        match ch {
            UartTxChannel::Ctrl => want_ctrl.extend_from_slice(d),
            UartTxChannel::Node => want_node.extend_from_slice(d),
        }
    }
    let mut r = SerialPacketReader::new(frames);
    let ctrl = read_all(&mut r, UartTxChannel::Ctrl);
    assert!(ctrl.len() > 0);
    assert_eq!(ctrl, want_ctrl);
    let node = read_all(&mut r, UartTxChannel::Node);
    assert!(node.len() > 0);
    assert_eq!(node, want_node);
}
