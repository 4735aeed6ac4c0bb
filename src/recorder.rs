//! Deciding where one recorded run ends and the next begins.
//!
//! Bytes from the two channels arrive as events. Consecutive bytes of one
//! channel are gathered into one run; the run is complete when the other
//! channel starts talking, when the line has been quiet for a while, or when
//! the session ends. Complete runs are what the capture records.
use bytes::BytesMut;
use vstd::prelude::*;

use crate::byte_buf::{bytes_extend, bytes_len, bytes_new, bytes_of, bytes_split_to};
use crate::channel::UartTxChannel;
use crate::record::{
    channel_stream, lemma_channel_stream_append, lemma_channel_stream_single, SerialPacket,
};

verus! {

/// A run as channel, bytes and the time its first byte arrived.
pub type RunView = (UartTxChannel, Seq<u8>, u64);

/// What the recorder does on bytes `d` of channel `ch` arriving at time `t`,
/// given its open run: the open run after, and the run it completes, if any.
pub open spec fn spec_receive(open: Option<RunView>, ch: UartTxChannel, d: Seq<u8>, t: u64) -> (
    Option<RunView>,
    Option<RunView>,
) {
    if d.len() == 0 {
        (open, None)
    } else {
        match open {
            None => (Some((ch, d, t)), None),
            Some((c, b, t0)) => if c == ch {
                (Some((c, b + d, t0)), None)
            } else {
                (Some((ch, d, t)), Some((c, b, t0)))
            },
        }
    }
}

/// What the recorder does when the line is quiet or the session ends: the
/// open run, if any, is complete.
pub open spec fn spec_flush(open: Option<RunView>) -> (Option<RunView>, Option<RunView>) {
    (None, open)
}

/// An event seen by the recorder.
pub enum RecorderEvent {
    /// Bytes of a channel, with the time they arrived (microseconds since
    /// the Unix epoch).
    Data(UartTxChannel, Vec<u8>, u64),
    /// No event came within the quiet window.
    Timeout,
    /// Every producer has stopped.
    Closed,
}

/// What the recorder asks its driver to do after an event.
pub struct RecorderStep {
    /// A complete run, to be written to the capture.
    pub flush: Option<SerialPacket>,
    /// Whether the session is over.
    pub stop: bool,
}

/// The run view of a flushed run.
pub open spec fn flushed_view(p: Option<SerialPacket>) -> Option<RunView> {
    match p {
        Some(p) => Some((p.ch, bytes_of(p.data), p.time_us)),
        None => None,
    }
}

/// Gathers channel-tagged bytes into runs.
pub struct StreamRecorder {
    ch: UartTxChannel,
    buf: BytesMut,
    time_us: u64,
}

impl StreamRecorder {
    /// The run being gathered, if any.
    pub closed spec fn open_run(&self) -> Option<RunView> {
        if bytes_of(self.buf).len() > 0 {
            Some((self.ch, bytes_of(self.buf), self.time_us))
        } else {
            None
        }
    }

    /// A recorder with no open run.
    pub fn new() -> (r: Self)
        ensures
            r.open_run() is None,
    {
        StreamRecorder { ch: UartTxChannel::Node, buf: bytes_new(), time_us: 0 }
    }

    /// Whether a run is open, so that a quiet line should be watched for.
    pub fn has_open_run(&self) -> (r: bool)
        ensures
            r == self.open_run() is Some,
    {
        bytes_len(&self.buf) > 0
    }

    /// Takes bytes `data` of channel `ch` that arrived at `time_us`. A run of
    /// the other channel that was open is returned as complete.
    pub fn receive(&mut self, ch: UartTxChannel, data: &[u8], time_us: u64) -> (r: Option<
        SerialPacket,
    >)
        ensures
            (final(self).open_run(), flushed_view(r)) == spec_receive(
                old(self).open_run(),
                ch,
                data@,
                time_us,
            ),
    {
        if data.len() == 0 {
            return None;
        }
        let held = bytes_len(&self.buf);
        if held == 0 {
            self.ch = ch;
            self.time_us = time_us;
            bytes_extend(&mut self.buf, data);
            assert(bytes_of(self.buf) =~= data@);
            None
        } else if self.ch == ch {
            bytes_extend(&mut self.buf, data);
            None
        } else {
            let done = bytes_split_to(&mut self.buf, held);
            let out = SerialPacket { ch: self.ch, data: done, time_us: self.time_us };
            assert(bytes_of(done) =~= bytes_of(old(self).buf));
            assert(bytes_of(self.buf) =~= Seq::<u8>::empty());
            self.ch = ch;
            self.time_us = time_us;
            bytes_extend(&mut self.buf, data);
            assert(bytes_of(self.buf) =~= data@);
            Some(out)
        }
    }

    /// Completes the open run, if any, and returns it.
    pub fn flush(&mut self) -> (r: Option<SerialPacket>)
        ensures
            (final(self).open_run(), flushed_view(r)) == spec_flush(old(self).open_run()),
    {
        let held = bytes_len(&self.buf);
        if held == 0 {
            None
        } else {
            let done = bytes_split_to(&mut self.buf, held);
            assert(bytes_of(done) =~= bytes_of(old(self).buf));
            assert(bytes_of(self.buf) =~= Seq::<u8>::empty());
            Some(SerialPacket { ch: self.ch, data: done, time_us: self.time_us })
        }
    }

    /// Handles one event: bytes join or complete runs, a quiet line or the
    /// end of the session completes the open run, and the end of the session
    /// stops the recorder.
    pub fn step(&mut self, ev: RecorderEvent) -> (r: RecorderStep)
        ensures
            match ev {
                RecorderEvent::Data(ch, d, t) => {
                    &&& (final(self).open_run(), flushed_view(r.flush)) == spec_receive(
                        old(self).open_run(),
                        ch,
                        d@,
                        t,
                    )
                    &&& !r.stop
                },
                RecorderEvent::Timeout => {
                    &&& (final(self).open_run(), flushed_view(r.flush)) == spec_flush(
                        old(self).open_run(),
                    )
                    &&& !r.stop
                },
                RecorderEvent::Closed => {
                    &&& (final(self).open_run(), flushed_view(r.flush)) == spec_flush(
                        old(self).open_run(),
                    )
                    &&& r.stop
                },
            },
    {
        match ev {
            RecorderEvent::Data(ch, d, t) => {
                let flush = self.receive(ch, d.as_slice(), t);
                RecorderStep { flush, stop: false }
            },
            RecorderEvent::Timeout => {
                let flush = self.flush();
                RecorderStep { flush, stop: false }
            },
            RecorderEvent::Closed => {
                let flush = self.flush();
                RecorderStep { flush, stop: true }
            },
        }
    }
}

/// A quiet line splits a run: two non-empty pieces of one channel are
/// gathered into a single run when they arrive back to back, but when the
/// quiet window passes between them the first one is completed on its own
/// and the second opens a new run.
pub proof fn lemma_timeout_splits_run(
    ch: UartTxChannel,
    d1: Seq<u8>,
    t1: u64,
    d2: Seq<u8>,
    t2: u64,
)
    requires
        d1.len() > 0,
        d2.len() > 0,
    ensures
        ({
            let (s1, f1) = spec_receive(None, ch, d1, t1);
            let (s2, f2) = spec_receive(s1, ch, d2, t2);
            &&& f1 is None
            &&& f2 is None
            &&& s2 == Some((ch, d1 + d2, t1))
        }),
        ({
            let (s1, f1) = spec_receive(None, ch, d1, t1);
            let (q, fq) = spec_flush(s1);
            let (s2, f2) = spec_receive(q, ch, d2, t2);
            &&& f1 is None
            &&& fq == Some((ch, d1, t1))
            &&& f2 is None
            &&& s2 == Some((ch, d2, t2))
        }),
{
}

/// A run, if any, as a sequence of channel and bytes.
pub open spec fn run_seq(r: Option<RunView>) -> Seq<(UartTxChannel, Seq<u8>)> {
    match r {
        Some((c, b, _)) => seq![(c, b)],
        None => Seq::empty(),
    }
}

/// Recording keeps every byte of every channel, in arrival order: the run
/// that an event completes, followed by the run left open, holds for each
/// channel what the open run held followed by the event's bytes. Runs
/// written in the order they complete therefore hold each channel's bytes
/// in the order they arrived.
pub proof fn lemma_receive_keeps_bytes(
    open: Option<RunView>,
    ch: UartTxChannel,
    d: Seq<u8>,
    t: u64,
    c: UartTxChannel,
)
    ensures
        ({
            let (after, done) = spec_receive(open, ch, d, t);
            channel_stream(run_seq(done) + run_seq(after), c) == channel_stream(
                run_seq(open) + seq![(ch, d)],
                c,
            )
        }),
{
    let (after, done) = spec_receive(open, ch, d, t);
    lemma_channel_stream_append(run_seq(done), run_seq(after), c);
    lemma_channel_stream_append(run_seq(open), seq![(ch, d)], c);
    lemma_channel_stream_single(ch, d, c);
    let empty = Seq::<(UartTxChannel, Seq<u8>)>::empty();
    assert(channel_stream(empty, c) == Seq::<u8>::empty());
    match open {
        None => {
            assert(run_seq(open) == empty);
            if d.len() > 0 {
                assert(run_seq(done) == empty);
            } else {
                assert(run_seq(after) == empty);
                assert(d =~= Seq::<u8>::empty());
            }
        },
        Some((c0, b, t0)) => {
            lemma_channel_stream_single(c0, b, c);
            if d.len() == 0 {
                assert(run_seq(done) == empty);
                assert(d =~= Seq::<u8>::empty());
            } else if c0 == ch {
                assert(run_seq(done) == empty);
                lemma_channel_stream_single(c0, b + d, c);
            } else {
                lemma_channel_stream_single(c0, b, c);
            }
        },
    }
    assert(channel_stream(run_seq(done) + run_seq(after), c) =~= channel_stream(
        run_seq(open) + seq![(ch, d)],
        c,
    ));
}

} // verus!
