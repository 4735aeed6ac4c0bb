use serial_pcap::channel::UartTxChannel;
use serial_pcap::mux::{demux_chunk, tag_channel, TRIG_BYTE};
use serial_pcap::recorder::{RecorderEvent, StreamRecorder};
use serial_pcap::replay::DataWithTrigger;

fn runs(chunk: &[u8]) -> (Vec<(UartTxChannel, Vec<u8>)>, bool) {
    let d = demux_chunk(chunk);
    (d.runs.into_iter().map(|r| (r.ch, r.data)).collect(), d.resync)
}

#[test]
fn top_bit_selects_channel() {
    assert_eq!(tag_channel(0x84), UartTxChannel::Ctrl);
    assert_eq!(tag_channel(0x04), UartTxChannel::Node);
}

#[test]
fn demux_splits_on_channel_change_and_drops_markers() {
    let chunk = [0x84, 0xb1, TRIG_BYTE, 0xb2, 0x06, TRIG_BYTE, 0x85];
    let (rs, resync) = runs(&chunk);
    assert!(resync);
    assert_eq!(
        rs,
        vec![
            (UartTxChannel::Ctrl, vec![0x04, 0x31, 0x32]),
            (UartTxChannel::Node, vec![0x06]),
            (UartTxChannel::Ctrl, vec![0x05]),
        ]
    );
}

#[test]
fn demux_of_markers_only_gives_no_run() {
    let (rs, resync) = runs(&[TRIG_BYTE, TRIG_BYTE]);
    assert!(rs.is_empty());
    assert!(resync);
    let (rs, resync) = runs(&[]);
    assert!(rs.is_empty());
    assert!(!resync);
}

#[test]
fn demux_reconstructs_both_streams() {
    let ctrl: Vec<u8> = vec![0x04, 0x33, 0x33, 0x31, 0x31, 0x05];
    let node: Vec<u8> = vec![0x02, 0x30, 0x03, 0x06];
    // Interleave: two ctrl, one node, a marker, and so on.
    let mut wire = Vec::new();
    let (mut i, mut j) = (0, 0);
    while i < ctrl.len() || j < node.len() {
        for _ in 0..2 {
            if i < ctrl.len() {
                wire.push(ctrl[i] | 0x80);
                i += 1;
            }
        }
        if j < node.len() {
            wire.push(node[j]);
            j += 1;
        }
        wire.push(TRIG_BYTE);
    }
    let (rs, resync) = runs(&wire);
    assert!(resync);
    let mut got_ctrl = Vec::new();
    let mut got_node = Vec::new();
    for (ch, d) in &rs {
        match ch {
            UartTxChannel::Ctrl => got_ctrl.extend_from_slice(d),
            UartTxChannel::Node => got_node.extend_from_slice(d),
        }
    }
    assert_eq!(got_ctrl, ctrl);
    assert_eq!(got_node, node);
    for w in rs.windows(2) {
        assert_ne!(w[0].0, w[1].0);
    }
}

#[test]
fn recorder_flushes_on_channel_change() {
    let mut r = StreamRecorder::new();
    assert!(!r.has_open_run());
    assert!(r.receive(UartTxChannel::Ctrl, &[0x04, 0x31, 0x32], 10).is_none());
    assert!(r.has_open_run());
    let f = r.receive(UartTxChannel::Node, &[0x06], 11).unwrap();
    assert_eq!((f.ch, f.data.to_vec(), f.time_us), (UartTxChannel::Ctrl, vec![0x04, 0x31, 0x32], 10));
    let f = r.receive(UartTxChannel::Ctrl, &[0x04], 12).unwrap();
    assert_eq!((f.ch, f.data.to_vec(), f.time_us), (UartTxChannel::Node, vec![0x06], 11));
    let f = r.flush().unwrap();
    assert_eq!((f.ch, f.data.to_vec(), f.time_us), (UartTxChannel::Ctrl, vec![0x04], 12));
    assert!(r.flush().is_none());
}

#[test]
fn recorder_joins_same_channel_bytes() {
    let mut r = StreamRecorder::new();
    assert!(r.receive(UartTxChannel::Node, &[1, 2], 5).is_none());
    assert!(r.receive(UartTxChannel::Node, &[], 6).is_none());
    assert!(r.receive(UartTxChannel::Node, &[3], 7).is_none());
    let f = r.flush().unwrap();
    assert_eq!((f.ch, f.data.to_vec(), f.time_us), (UartTxChannel::Node, vec![1, 2, 3], 5));
}

#[test]
fn timeout_splits_same_channel_run() {
    let mut r = StreamRecorder::new();
    let s = r.step(RecorderEvent::Data(UartTxChannel::Ctrl, vec![1, 2], 100));
    assert!(s.flush.is_none() && !s.stop);
    let s = r.step(RecorderEvent::Timeout);
    assert!(!s.stop);
    let f = s.flush.unwrap();
    assert_eq!((f.ch, f.data.to_vec(), f.time_us), (UartTxChannel::Ctrl, vec![1, 2], 100));
    let s = r.step(RecorderEvent::Data(UartTxChannel::Ctrl, vec![3], 200));
    assert!(s.flush.is_none());
    let s = r.step(RecorderEvent::Closed);
    assert!(s.stop);
    let f = s.flush.unwrap();
    assert_eq!((f.ch, f.data.to_vec(), f.time_us), (UartTxChannel::Ctrl, vec![3], 200));
}

#[test]
fn timeout_with_nothing_open_flushes_nothing() {
    let mut r = StreamRecorder::new();
    let s = r.step(RecorderEvent::Timeout);
    assert!(s.flush.is_none() && !s.stop);
    let s = r.step(RecorderEvent::Closed);
    assert!(s.flush.is_none() && s.stop);
}

#[test]
fn data_with_trigger_splits_at_markers() {
    let mut d = DataWithTrigger::new(bytes::BytesMut::from(&[1u8, 2, TRIG_BYTE, 3, TRIG_BYTE][..]));
    assert_eq!(d.as_slice(), &[1, 2]);
    assert_eq!(d.consume(2).to_vec(), vec![1, 2]);
    assert_eq!(d.as_slice(), &[] as &[u8]);
    assert!(d.check_trigger());
    assert_eq!(d.as_slice(), &[3]);
    assert_eq!(d.consume(1).to_vec(), vec![3]);
    assert!(d.check_trigger());
    assert!(d.is_empty());
    assert!(!d.check_trigger());
}
