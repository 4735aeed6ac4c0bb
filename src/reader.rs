//! Reading a capture back as one ordered byte stream per channel.
//!
//! The reader walks the records of a capture in order. A caller asks for the
//! bytes of one channel; records of the other channel met on the way are
//! decoded and kept aside until that channel is asked for.
use bytes::BytesMut;
use vstd::prelude::*;

use crate::byte_buf::{
    bytes_extend, bytes_from_slice, bytes_len, bytes_new, bytes_of, bytes_split_to,
};
use crate::channel::UartTxChannel;
use crate::framing::{decode_frame, lemma_frame_round_trip, spec_decode, DecodeError};
use crate::record::{
    channel_stream, frames_written, lemma_channel_stream_append, lemma_channel_stream_single,
    lemma_round_trip, records_of, CapturedFrame, SerialPacket,
};

verus! {

/// What reading record `f` gives: its channel and bytes, or why it is bad.
pub open spec fn frame_record(f: CapturedFrame) -> Result<(UartTxChannel, Seq<u8>), DecodeError> {
    spec_decode(f.data@, f.orig_len as int)
}

/// Of two per-channel values, the one of channel `ch`.
pub open spec fn pick<T>(ch: UartTxChannel, ctrl: T, node: T) -> T {
    match ch {
        UartTxChannel::Ctrl => ctrl,
        UartTxChannel::Node => node,
    }
}

/// The bytes that the records `frames` hold for channel `ch`, in order, up to
/// the first record that cannot be read.
pub open spec fn stream_of(frames: Seq<CapturedFrame>, ch: UartTxChannel) -> Seq<u8>
    decreases frames.len(),
{
    if frames.len() == 0 {
        Seq::empty()
    } else {
        match frame_record(frames[0]) {
            Ok((c, d)) => (if c == ch {
                d
            } else {
                Seq::empty()
            }) + stream_of(frames.skip(1), ch),
            Err(_) => Seq::empty(),
        }
    }
}

/// Every record of `frames` can be read.
pub open spec fn all_readable(frames: Seq<CapturedFrame>) -> bool {
    forall|i: int| 0 <= i < frames.len() ==> (#[trigger] frame_record(frames[i])) is Ok
}

/// Pulling records until channel `ch` has buffered bytes: the records left,
/// the two buffers after, and the error that stopped the pulling, if any.
pub open spec fn fill_end(
    pending: Seq<CapturedFrame>,
    ctrl: Seq<u8>,
    node: Seq<u8>,
    ch: UartTxChannel,
) -> (Seq<CapturedFrame>, Seq<u8>, Seq<u8>, Option<DecodeError>)
    decreases pending.len(),
{
    if pick(ch, ctrl, node).len() > 0 || pending.len() == 0 {
        (pending, ctrl, node, None)
    } else {
        match frame_record(pending[0]) {
            Err(e) => (pending.skip(1), ctrl, node, Some(e)),
            Ok((c, d)) => fill_end(
                pending.skip(1),
                if c == UartTxChannel::Ctrl {
                    ctrl + d
                } else {
                    ctrl
                },
                if c == UartTxChannel::Node {
                    node + d
                } else {
                    node
                },
                ch,
            ),
        }
    }
}

/// Pulling records moves bytes from the records to the buffers without
/// losing, reordering or mixing them: for each channel, buffer followed by
/// what the records still hold is unchanged. It stops with bytes for `ch`
/// or with no record left.
pub proof fn lemma_fill_keeps_streams(
    pending: Seq<CapturedFrame>,
    ctrl: Seq<u8>,
    node: Seq<u8>,
    ch: UartTxChannel,
    other: UartTxChannel,
)
    requires
        all_readable(pending),
    ensures
        ({
            let (rest, c2, n2, err) = fill_end(pending, ctrl, node, ch);
            &&& err is None
            &&& pick(other, c2, n2) + stream_of(rest, other) == pick(other, ctrl, node) + stream_of(
                pending,
                other,
            )
            &&& pick(ch, c2, n2).len() > 0 || rest.len() == 0
            &&& all_readable(rest)
        }),
    decreases pending.len(),
{
    if pick(ch, ctrl, node).len() > 0 || pending.len() == 0 {
    } else {
        assert(frame_record(pending[0]) is Ok);
        let (c, d) = frame_record(pending[0])->Ok_0;
        let rest = pending.skip(1);
        assert forall|i: int| 0 <= i < rest.len() implies (#[trigger] frame_record(
            rest[i],
        )) is Ok by {
            assert(rest[i] == pending[i + 1]);
        }
        let c1 = if c == UartTxChannel::Ctrl {
            ctrl + d
        } else {
            ctrl
        };
        let n1 = if c == UartTxChannel::Node {
            node + d
        } else {
            node
        };
        lemma_fill_keeps_streams(rest, c1, n1, ch, other);
        if c == other {
            assert(pick(other, c1, n1) =~= pick(other, ctrl, node) + d);
            assert(pick(other, ctrl, node) + d + stream_of(rest, other) =~= pick(
                other,
                ctrl,
                node,
            ) + (d + stream_of(rest, other)));
        } else {
            assert(pick(other, c1, n1) == pick(other, ctrl, node));
            assert(Seq::<u8>::empty() + stream_of(rest, other) =~= stream_of(rest, other));
        }
    }
}

/// Frames that frame the records `recs` read back as those records: each
/// one is readable, and per channel they hold the records' bytes in order.
pub proof fn lemma_written_frames_read_back(
    frames: Seq<CapturedFrame>,
    recs: Seq<(UartTxChannel, Seq<u8>)>,
    ch: UartTxChannel,
)
    requires
        frames_written(frames, recs),
    ensures
        all_readable(frames),
        stream_of(frames, ch) == channel_stream(recs, ch),
    decreases frames.len(),
{
    if frames.len() > 0 {
        let (c0, d0) = recs[0];
        lemma_frame_round_trip(frames[0].data@, c0, d0);
        assert(frame_record(frames[0]) == Ok::<(UartTxChannel, Seq<u8>), DecodeError>((c0, d0)));
        let fr = frames.skip(1);
        let rr = recs.skip(1);
        assert forall|i: int| 0 <= i < fr.len() implies {
            &&& crate::framing::is_frame_of((#[trigger] fr[i]).data@, rr[i].0, rr[i].1)
            &&& fr[i].orig_len == fr[i].data@.len()
        } by {
            assert(fr[i] == frames[i + 1]);
            assert(rr[i] == recs[i + 1]);
        }
        lemma_written_frames_read_back(fr, rr, ch);
        assert(recs =~= seq![(c0, d0)] + rr);
        lemma_channel_stream_append(seq![(c0, d0)], rr, ch);
        lemma_channel_stream_single(c0, d0, ch);
        assert forall|i: int| 0 <= i < frames.len() implies (#[trigger] frame_record(
            frames[i],
        )) is Ok by {
            if i > 0 {
                assert(frames[i] == fr[i - 1]);
            }
        }
    }
}

/// Round trip: the frames written for a sequence of writes, one frame per
/// record in order, all read back, and for each channel they hold exactly the
/// bytes written on that channel, in the order they were written, however
/// the runs were cut into records.
pub proof fn lemma_capture_round_trip(
    writes: Seq<(UartTxChannel, Seq<u8>)>,
    frames: Seq<CapturedFrame>,
    ch: UartTxChannel,
)
    requires
        frames_written(frames, records_of(writes)),
    ensures
        all_readable(frames),
        stream_of(frames, ch) == channel_stream(writes, ch),
{
    lemma_written_frames_read_back(frames, records_of(writes), ch);
    lemma_round_trip(writes, ch);
}

/// Reads the records of a capture, in order, per channel.
pub struct SerialPacketReader {
    frames: Vec<CapturedFrame>,
    next: usize,
    ctrl_buf: BytesMut,
    node_buf: BytesMut,
}

impl SerialPacketReader {
    /// The records not read yet.
    pub closed spec fn pending(&self) -> Seq<CapturedFrame> {
        self.frames@.skip(self.next as int)
    }

    /// Bytes read from records of channel `ch` and not yet handed out.
    pub closed spec fn buffer(&self, ch: UartTxChannel) -> Seq<u8> {
        pick(ch, bytes_of(self.ctrl_buf), bytes_of(self.node_buf))
    }

    /// The reader's invariant.
    pub closed spec fn wf(&self) -> bool {
        self.next <= self.frames@.len()
    }

    /// Everything still to be read on channel `ch`.
    pub open spec fn unread(&self, ch: UartTxChannel) -> Seq<u8> {
        self.buffer(ch) + stream_of(self.pending(), ch)
    }

    /// A reader positioned before the first of `frames`.
    pub fn new(frames: Vec<CapturedFrame>) -> (r: Self)
        ensures
            r.wf(),
            r.pending() == frames@,
            r.buffer(UartTxChannel::Ctrl) == Seq::<u8>::empty(),
            r.buffer(UartTxChannel::Node) == Seq::<u8>::empty(),
    {
        let r = SerialPacketReader {
            frames,
            next: 0,
            ctrl_buf: bytes_new(),
            node_buf: bytes_new(),
        };
        assert(r.frames@.skip(0) =~= r.frames@);
        r
    }

    /// Reads the next record, if any is left.
    pub fn next_packet(&mut self) -> (r: Result<Option<SerialPacket>, DecodeError>)
        requires
            old(self).wf(),
        ensures
            final(self).wf(),
            final(self).buffer(UartTxChannel::Ctrl) == old(self).buffer(UartTxChannel::Ctrl),
            final(self).buffer(UartTxChannel::Node) == old(self).buffer(UartTxChannel::Node),
            old(self).pending().len() == 0 ==> (r matches Ok(None) && final(self).pending()
                == old(self).pending()),
            old(self).pending().len() > 0 ==> final(self).pending() == old(self).pending().skip(
                1,
            ),
            old(self).pending().len() > 0 ==> match frame_record(old(self).pending()[0]) {
                Ok((c, d)) => (r matches Ok(Some(p)) && p.ch == c && bytes_of(p.data) == d
                    && p.time_us == old(self).pending()[0].time_us),
                Err(e) => r == Err::<Option<SerialPacket>, DecodeError>(e),
            },
    {
        if self.next >= self.frames.len() {
            return Ok(None);
        }
        let i = self.next;
        self.next = self.next + 1;
        assert(self.frames@.skip(i + 1) =~= self.frames@.skip(i as int).skip(1));
        let frame = &self.frames[i];
        let time_us = frame.time_us;
        match decode_frame(frame.data.as_slice(), frame.orig_len) {
            Ok((ch, payload)) => Ok(
                Some(SerialPacket { ch, data: bytes_from_slice(payload.as_slice()), time_us }),
            ),
            Err(e) => Err(e),
        }
    }

    /// Reads one more record into the buffer of its channel. `Ok(false)`
    /// when no record is left.
    fn extend_one_pkt(&mut self) -> (r: Result<bool, DecodeError>)
        requires
            old(self).wf(),
        ensures
            final(self).wf(),
            old(self).pending().len() == 0 ==> (r matches Ok(false) && *final(self) == *old(self)),
            old(self).pending().len() > 0 ==> final(self).pending() == old(self).pending().skip(
                1,
            ),
            old(self).pending().len() > 0 ==> match frame_record(old(self).pending()[0]) {
                Ok((c, d)) => {
                    &&& r matches Ok(true)
                    &&& final(self).buffer(c) == old(self).buffer(c) + d
                    &&& final(self).buffer(c.spec_other()) == old(self).buffer(c.spec_other())
                },
                Err(e) => {
                    &&& r == Err::<bool, DecodeError>(e)
                    &&& final(self).buffer(UartTxChannel::Ctrl) == old(self).buffer(
                        UartTxChannel::Ctrl,
                    )
                    &&& final(self).buffer(UartTxChannel::Node) == old(self).buffer(
                        UartTxChannel::Node,
                    )
                },
            },
    {
        if self.next >= self.frames.len() {
            return Ok(false);
        }
        let i = self.next;
        self.next = self.next + 1;
        assert(self.frames@.skip(i + 1) =~= self.frames@.skip(i as int).skip(1));
        let frame = &self.frames[i];
        match decode_frame(frame.data.as_slice(), frame.orig_len) {
            Ok((ch, payload)) => {
                match ch {
                    UartTxChannel::Ctrl => bytes_extend(&mut self.ctrl_buf, payload.as_slice()),
                    UartTxChannel::Node => bytes_extend(&mut self.node_buf, payload.as_slice()),
                }
                Ok(true)
            },
            Err(e) => Err(e),
        }
    }

    /// Number of bytes buffered for channel `ch`.
    fn buffered(&self, ch: UartTxChannel) -> (r: usize)
        ensures
            r == self.buffer(ch).len(),
    {
        match ch {
            UartTxChannel::Ctrl => bytes_len(&self.ctrl_buf),
            UartTxChannel::Node => bytes_len(&self.node_buf),
        }
    }

    /// Reads records until channel `ch` has buffered bytes or none is left.
    fn fill_buffer(&mut self, ch: UartTxChannel) -> (r: Result<(), DecodeError>)
        requires
            old(self).wf(),
        ensures
            final(self).wf(),
            ({
                let (rest, c2, n2, err) = fill_end(
                    old(self).pending(),
                    old(self).buffer(UartTxChannel::Ctrl),
                    old(self).buffer(UartTxChannel::Node),
                    ch,
                );
                &&& final(self).pending() == rest
                &&& final(self).buffer(UartTxChannel::Ctrl) == c2
                &&& final(self).buffer(UartTxChannel::Node) == n2
                &&& match err {
                    Some(e) => r == Err::<(), DecodeError>(e),
                    None => r is Ok,
                }
            }),
    {
        let ghost goal = fill_end(
            self.pending(),
            self.buffer(UartTxChannel::Ctrl),
            self.buffer(UartTxChannel::Node),
            ch,
        );
        loop
            invariant
                self.wf(),
                fill_end(
                    self.pending(),
                    self.buffer(UartTxChannel::Ctrl),
                    self.buffer(UartTxChannel::Node),
                    ch,
                ) == goal,
                goal == fill_end(
                    old(self).pending(),
                    old(self).buffer(UartTxChannel::Ctrl),
                    old(self).buffer(UartTxChannel::Node),
                    ch,
                ),
            decreases self.pending().len(),
        {
            proof {
                assert(pick(ch, self.buffer(UartTxChannel::Ctrl), self.buffer(UartTxChannel::Node))
                    == self.buffer(ch));
            }
            if self.buffered(ch) > 0 {
                return Ok(());
            }
            let ghost before = *self;
            match self.extend_one_pkt() {
                Ok(true) => {},
                Ok(false) => {
                    return Ok(());
                },
                Err(e) => {
                    return Err(e);
                },
            }
            proof {
                let (c, d) = frame_record(before.pending()[0])->Ok_0;
                if c == UartTxChannel::Ctrl {
                    assert(self.buffer(UartTxChannel::Node) == before.buffer(UartTxChannel::Node));
                } else {
                    assert(self.buffer(UartTxChannel::Ctrl) == before.buffer(UartTxChannel::Ctrl));
                }
            }
        }
    }

    /// Hands out up to `max_len` bytes of channel `ch`, oldest first. When
    /// nothing is buffered for `ch`, records are read first, keeping the
    /// bytes of the other channel aside, until some byte of `ch` is there or
    /// no record is left.
    pub fn read_bytes(&mut self, ch: UartTxChannel, max_len: usize) -> (r: Result<
        BytesMut,
        DecodeError,
    >)
        requires
            old(self).wf(),
        ensures
            final(self).wf(),
            ({
                let (rest, c2, n2, err) = fill_end(
                    old(self).pending(),
                    old(self).buffer(UartTxChannel::Ctrl),
                    old(self).buffer(UartTxChannel::Node),
                    ch,
                );
                let avail = pick(ch, c2, n2);
                let k = if max_len < avail.len() {
                    max_len as int
                } else {
                    avail.len() as int
                };
                &&& final(self).pending() == rest
                &&& final(self).buffer(ch.spec_other()) == pick(ch.spec_other(), c2, n2)
                &&& match err {
                    Some(e) => (r matches Err(x) && x == e && final(self).buffer(ch) == avail),
                    None => (r matches Ok(b) && bytes_of(b) == avail.take(k) && final(self).buffer(
                        ch,
                    ) == avail.skip(k)),
                }
            }),
            all_readable(old(self).pending()) ==> (r matches Ok(b) && old(self).unread(ch)
                == bytes_of(b) + final(self).unread(ch)),
            all_readable(old(self).pending()) ==> final(self).unread(ch.spec_other()) == old(
                self,
            ).unread(ch.spec_other()),
            all_readable(old(self).pending()) ==> (r matches Ok(b) && (bytes_of(b).len() > 0
                || max_len == 0 || final(self).pending().len() == 0)),
    {
        let ghost start = *self;
        if self.buffered(ch) == 0 {
            let res = self.fill_buffer(ch);
            if let Err(e) = res {
                proof {
                    if all_readable(start.pending()) {
                        lemma_fill_keeps_streams(
                            start.pending(),
                            start.buffer(UartTxChannel::Ctrl),
                            start.buffer(UartTxChannel::Node),
                            ch,
                            ch,
                        );
                    }
                }
                return Err(e);
            }
        }
        let avail = self.buffered(ch);
        let len = if max_len < avail {
            max_len
        } else {
            avail
        };
        let ghost mid = *self;
        let out = match ch {
            UartTxChannel::Ctrl => bytes_split_to(&mut self.ctrl_buf, len),
            UartTxChannel::Node => bytes_split_to(&mut self.node_buf, len),
        };
        proof {
            if all_readable(start.pending()) {
                let ctrl0 = start.buffer(UartTxChannel::Ctrl);
                let node0 = start.buffer(UartTxChannel::Node);
                lemma_fill_keeps_streams(start.pending(), ctrl0, node0, ch, ch);
                lemma_fill_keeps_streams(start.pending(), ctrl0, node0, ch, ch.spec_other());
                let b = mid.buffer(ch);
                assert(b =~= b.take(len as int) + b.skip(len as int));
                assert(b + stream_of(mid.pending(), ch) =~= b.take(len as int) + (b.skip(
                    len as int,
                ) + stream_of(mid.pending(), ch)));
            }
        }
        Ok(out)
    }
}

} // verus!
