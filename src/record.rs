//! Capture records and how a run of bytes is cut into them.
use bytes::BytesMut;
use vstd::prelude::*;

use crate::byte_buf::{bytes_from_slice, bytes_of};
use crate::channel::UartTxChannel;
use crate::framing::{encode_frame, is_frame_of, MAX_PAYLOAD};

verus! {

/// One record of a capture, as stored in the container: the packet bytes,
/// the length the packet had when captured, and the capture time.
pub struct CapturedFrame {
    pub data: Vec<u8>,
    pub orig_len: usize,
    /// Microseconds since the Unix epoch.
    pub time_us: u64,
}

/// One decoded record: the channel that sent it and its bytes.
pub struct SerialPacket {
    pub ch: UartTxChannel,
    pub data: BytesMut,
    /// Microseconds since the Unix epoch.
    pub time_us: u64,
}

impl SerialPacket {
    /// The record as channel and bytes.
    pub open spec fn record(&self) -> (UartTxChannel, Seq<u8>) {
        (self.ch, bytes_of(self.data))
    }
}

/// Why a run could not be framed. No run of bytes gives it: every chunk is
/// short enough to frame.
#[derive(Debug, Clone, Copy, PartialEq, Eq, Structural)]
pub enum EncodeError {
    /// The packet builder refused a chunk.
    FrameBuild,
}

/// The payloads of the records that a run `d` is cut into: consecutive
/// pieces of [`MAX_PAYLOAD`] bytes, the last one possibly shorter.
pub open spec fn chunk_seq(d: Seq<u8>) -> Seq<Seq<u8>>
    decreases d.len(),
{
    if d.len() == 0 {
        Seq::empty()
    } else if d.len() <= MAX_PAYLOAD {
        seq![d]
    } else {
        seq![d.take(MAX_PAYLOAD as int)] + chunk_seq(d.skip(MAX_PAYLOAD as int))
    }
}

/// Concatenation of a sequence of byte strings.
pub open spec fn concat(parts: Seq<Seq<u8>>) -> Seq<u8>
    decreases parts.len(),
{
    if parts.len() == 0 {
        Seq::empty()
    } else {
        concat(parts.drop_last()) + parts.last()
    }
}

/// The bytes that the runs `recs` hold for channel `ch`, in order.
pub open spec fn channel_stream(recs: Seq<(UartTxChannel, Seq<u8>)>, ch: UartTxChannel) -> Seq<u8>
    decreases recs.len(),
{
    if recs.len() == 0 {
        Seq::empty()
    } else if recs.last().0 == ch {
        channel_stream(recs.drop_last(), ch) + recs.last().1
    } else {
        channel_stream(recs.drop_last(), ch)
    }
}

/// Number of records a run of `n` bytes is cut into.
pub open spec fn chunk_count(n: int) -> int {
    if n <= 0 {
        0
    } else {
        (n + MAX_PAYLOAD - 1) / MAX_PAYLOAD as int
    }
}

pub proof fn lemma_concat_append(a: Seq<Seq<u8>>, b: Seq<Seq<u8>>)
    ensures
        concat(a + b) == concat(a) + concat(b),
    decreases b.len(),
{
    if b.len() == 0 {
        assert(a + b =~= a);
        assert(concat(a) + concat(b) =~= concat(a));
    } else {
        lemma_concat_append(a, b.drop_last());
        assert((a + b).drop_last() =~= a + b.drop_last());
        assert(concat(a) + concat(b) =~= concat(a) + concat(b.drop_last()) + b.last());
    }
}

/// The pieces of a run are non-empty, at most [`MAX_PAYLOAD`] long, there
/// are [`chunk_count`] of them, and together they are the run.
pub proof fn lemma_chunk_seq(d: Seq<u8>)
    ensures
        chunk_seq(d).len() == chunk_count(d.len() as int),
        concat(chunk_seq(d)) == d,
        forall|i: int|
            0 <= i < chunk_seq(d).len() ==> 0 < #[trigger] chunk_seq(d)[i].len() <= MAX_PAYLOAD,
    decreases d.len(),
{
    if d.len() == 0 {
    } else if d.len() <= MAX_PAYLOAD {
        assert(seq![d].drop_last() =~= Seq::<Seq<u8>>::empty());
        assert(concat(Seq::<Seq<u8>>::empty()) + d =~= d);
    } else {
        let rest = d.skip(MAX_PAYLOAD as int);
        lemma_chunk_seq(rest);
        lemma_concat_append(seq![d.take(MAX_PAYLOAD as int)], chunk_seq(rest));
        assert(seq![d.take(MAX_PAYLOAD as int)].drop_last() =~= Seq::<Seq<u8>>::empty());
        assert(concat(Seq::<Seq<u8>>::empty()) + d.take(MAX_PAYLOAD as int) =~= d.take(
            MAX_PAYLOAD as int,
        ));
        assert(d.take(MAX_PAYLOAD as int) + rest =~= d);
        assert forall|i: int| 0 <= i < chunk_seq(d).len() implies 0 < #[trigger] chunk_seq(
            d,
        )[i].len() <= MAX_PAYLOAD by {
            if i > 0 {
                assert(chunk_seq(d)[i] == chunk_seq(rest)[i - 1]);
            }
        }
    }
}

/// Unfolds one step of [`chunk_seq`] at position `pos` of `d`.
proof fn lemma_chunk_step(d: Seq<u8>, pos: int)
    requires
        0 <= pos < d.len(),
    ensures
        ({
            let end = if pos + MAX_PAYLOAD < d.len() {
                pos + MAX_PAYLOAD
            } else {
                d.len() as int
            };
            chunk_seq(d.skip(pos)) == seq![d.subrange(pos, end)] + chunk_seq(d.skip(end))
        }),
{
    let rest = d.skip(pos);
    if rest.len() <= MAX_PAYLOAD {
        assert(rest =~= d.subrange(pos, d.len() as int));
        assert(d.skip(d.len() as int) =~= Seq::<u8>::empty());
        assert(seq![rest] + chunk_seq(Seq::<u8>::empty()) =~= seq![rest]);
    } else {
        assert(rest.take(MAX_PAYLOAD as int) =~= d.subrange(pos, pos + MAX_PAYLOAD));
        assert(rest.skip(MAX_PAYLOAD as int) =~= d.skip(pos + MAX_PAYLOAD));
    }
}

/// Cuts a run into records of at most [`MAX_PAYLOAD`] bytes, in order, all
/// with the run's channel and time.
pub fn split_run(data: &[u8], ch: UartTxChannel, time_us: u64) -> (r: Vec<SerialPacket>)
    ensures
        r@.len() == chunk_seq(data@).len(),
        forall|i: int|
            0 <= i < r@.len() ==> (#[trigger] r@[i]).ch == ch && r@[i].time_us == time_us
                && bytes_of(r@[i].data) == chunk_seq(data@)[i],
        forall|i: int|
            0 <= i < r@.len() ==> (#[trigger] r@[i]).record() == tag_all(ch, chunk_seq(data@))[i],
{
    let n = data.len();
    let mut out: Vec<SerialPacket> = Vec::new();
    let mut pos: usize = 0;
    assert(data@.skip(0) =~= data@);
    while pos < n
        invariant
            n == data@.len(),
            pos <= n,
            out@.len() + chunk_seq(data@.skip(pos as int)).len() == chunk_seq(data@).len(),
            forall|i: int|
                0 <= i < out@.len() ==> (#[trigger] out@[i]).ch == ch && out@[i].time_us
                    == time_us && bytes_of(out@[i].data) == chunk_seq(data@)[i],
            forall|i: int|
                0 <= i < chunk_seq(data@.skip(pos as int)).len() ==> #[trigger] chunk_seq(
                    data@.skip(pos as int),
                )[i] == chunk_seq(data@)[out@.len() + i],
        decreases n - pos,
    {
        let end = if n - pos > MAX_PAYLOAD {
            pos + MAX_PAYLOAD
        } else {
            n
        };
        proof {
            lemma_chunk_step(data@, pos as int);
        }
        let piece = vstd::slice::slice_subrange(data, pos, end);
        let pkt = SerialPacket { ch, data: bytes_from_slice(piece), time_us };
        proof {
            let tail = chunk_seq(data@.skip(end as int));
            let cur = chunk_seq(data@.skip(pos as int));
            assert(cur[0] == data@.subrange(pos as int, end as int));
            assert forall|i: int| 0 <= i < tail.len() implies #[trigger] tail[i] == chunk_seq(
                data@,
            )[out@.len() + 1 + i] by {
                assert(tail[i] == cur[i + 1]);
            }
        }
        out.push(pkt);
        pos = end;
    }
    assert(data@.skip(n as int) =~= Seq::<u8>::empty());
    out
}

/// Cuts a run into records as [`split_run`] does and frames each one for
/// channel `ch`; all frames carry the run's time.
pub fn encode_run(data: &[u8], ch: UartTxChannel, time_us: u64) -> (r: Result<
    Vec<CapturedFrame>,
    EncodeError,
>)
    ensures
        r is Ok,
        r matches Ok(frames) ==> frames_written(frames@, tag_all(ch, chunk_seq(data@))),
        r matches Ok(frames) ==> {
            &&& frames@.len() == chunk_seq(data@).len()
            &&& forall|i: int|
                0 <= i < frames@.len() ==> {
                    &&& is_frame_of((#[trigger] frames@[i]).data@, ch, chunk_seq(data@)[i])
                    &&& frames@[i].orig_len == frames@[i].data@.len()
                    &&& frames@[i].time_us == time_us
                }
        },
{
    let n = data.len();
    let mut out: Vec<CapturedFrame> = Vec::new();
    let mut pos: usize = 0;
    assert(data@.skip(0) =~= data@);
    proof {
        lemma_chunk_seq(data@);
    }
    while pos < n
        invariant
            n == data@.len(),
            pos <= n,
            out@.len() + chunk_seq(data@.skip(pos as int)).len() == chunk_seq(data@).len(),
            forall|i: int|
                0 <= i < out@.len() ==> {
                    &&& is_frame_of((#[trigger] out@[i]).data@, ch, chunk_seq(data@)[i])
                    &&& out@[i].orig_len == out@[i].data@.len()
                    &&& out@[i].time_us == time_us
                },
            forall|i: int|
                0 <= i < chunk_seq(data@.skip(pos as int)).len() ==> #[trigger] chunk_seq(
                    data@.skip(pos as int),
                )[i] == chunk_seq(data@)[out@.len() + i],
        decreases n - pos,
    {
        let end = if n - pos > MAX_PAYLOAD {
            pos + MAX_PAYLOAD
        } else {
            n
        };
        proof {
            lemma_chunk_step(data@, pos as int);
        }
        let piece = vstd::slice::slice_subrange(data, pos, end);
        let frame = match encode_frame(ch, piece) {
            Some(f) => f,
            None => return Err(EncodeError::FrameBuild),
        };
        let orig_len = frame.len();
        proof {
            let tail = chunk_seq(data@.skip(end as int));
            let cur = chunk_seq(data@.skip(pos as int));
            assert(cur[0] == data@.subrange(pos as int, end as int));
            assert forall|i: int| 0 <= i < tail.len() implies #[trigger] tail[i] == chunk_seq(
                data@,
            )[out@.len() + 1 + i] by {
                assert(tail[i] == cur[i + 1]);
            }
        }
        out.push(CapturedFrame { data: frame, orig_len, time_us });
        pos = end;
    }
    assert(data@.skip(n as int) =~= Seq::<u8>::empty());
    Ok(out)
}


/// The pieces of `parts`, each tagged with channel `ch`.
pub open spec fn tag_all(ch: UartTxChannel, parts: Seq<Seq<u8>>) -> Seq<(UartTxChannel, Seq<u8>)> {
    parts.map_values(|p: Seq<u8>| (ch, p))
}

/// The records that a sequence of writes, each a channel and a run, puts
/// into a capture, in order.
pub open spec fn records_of(writes: Seq<(UartTxChannel, Seq<u8>)>) -> Seq<(UartTxChannel, Seq<u8>)>
    decreases writes.len(),
{
    if writes.len() == 0 {
        Seq::empty()
    } else {
        records_of(writes.drop_last()) + tag_all(writes.last().0, chunk_seq(writes.last().1))
    }
}

pub proof fn lemma_channel_stream_append(
    a: Seq<(UartTxChannel, Seq<u8>)>,
    b: Seq<(UartTxChannel, Seq<u8>)>,
    ch: UartTxChannel,
)
    ensures
        channel_stream(a + b, ch) == channel_stream(a, ch) + channel_stream(b, ch),
    decreases b.len(),
{
    if b.len() == 0 {
        assert(a + b =~= a);
        assert(channel_stream(a, ch) + Seq::<u8>::empty() =~= channel_stream(a, ch));
    } else {
        lemma_channel_stream_append(a, b.drop_last(), ch);
        assert((a + b).drop_last() =~= a + b.drop_last());
        assert((a + b).last() == b.last());
        if b.last().0 == ch {
            assert(channel_stream(a, ch) + channel_stream(b.drop_last(), ch) + b.last().1
                =~= channel_stream(a, ch) + (channel_stream(b.drop_last(), ch) + b.last().1));
        }
    }
}

pub proof fn lemma_channel_stream_tag_all(c: UartTxChannel, parts: Seq<Seq<u8>>, ch: UartTxChannel)
    ensures
        channel_stream(tag_all(c, parts), ch) == if c == ch {
            concat(parts)
        } else {
            Seq::<u8>::empty()
        },
    decreases parts.len(),
{
    if parts.len() > 0 {
        lemma_channel_stream_tag_all(c, parts.drop_last(), ch);
        assert(tag_all(c, parts).drop_last() =~= tag_all(c, parts.drop_last()));
    }
}

/// Round trip: whatever the chunking, the records written for a sequence of
/// writes hold, for each channel, exactly the bytes written on that channel,
/// in the order they were written.
pub proof fn lemma_round_trip(writes: Seq<(UartTxChannel, Seq<u8>)>, ch: UartTxChannel)
    ensures
        channel_stream(records_of(writes), ch) == channel_stream(writes, ch),
    decreases writes.len(),
{
    if writes.len() > 0 {
        let (c, d) = writes.last();
        lemma_round_trip(writes.drop_last(), ch);
        lemma_channel_stream_append(records_of(writes.drop_last()), tag_all(c, chunk_seq(d)), ch);
        lemma_channel_stream_tag_all(c, chunk_seq(d), ch);
        lemma_chunk_seq(d);
        if c != ch {
            assert(channel_stream(records_of(writes.drop_last()), ch) + Seq::<u8>::empty()
                =~= channel_stream(records_of(writes.drop_last()), ch));
        }
    }
}

/// Chunking: a run of `3 * MAX_PAYLOAD + 7` bytes on channel `ch` becomes
/// exactly four records, all on `ch`, none longer than [`MAX_PAYLOAD`],
/// which together hold the run.
pub proof fn lemma_chunking_example_size(ch: UartTxChannel, d: Seq<u8>)
    requires
        d.len() == 3 * MAX_PAYLOAD + 7,
    ensures
        tag_all(ch, chunk_seq(d)).len() == 4,
        forall|i: int| 0 <= i < 4 ==> (#[trigger] tag_all(ch, chunk_seq(d))[i]).0 == ch,
        forall|i: int| 0 <= i < 4 ==> #[trigger] chunk_seq(d)[i].len() <= MAX_PAYLOAD,
        concat(chunk_seq(d)) == d,
        concat(chunk_seq(d)).len() == d.len(),
{
    lemma_chunk_seq(d);
    assert(MAX_PAYLOAD == 168);
    assert(chunk_count(d.len() as int) == 4);
}

/// The records of `recs` that channel `ch` sent, in order.
pub open spec fn records_on(
    recs: Seq<(UartTxChannel, Seq<u8>)>,
    ch: UartTxChannel,
) -> Seq<(UartTxChannel, Seq<u8>)>
    decreases recs.len(),
{
    if recs.len() == 0 {
        Seq::empty()
    } else if recs.last().0 == ch {
        records_on(recs.drop_last(), ch).push(recs.last())
    } else {
        records_on(recs.drop_last(), ch)
    }
}

/// Channel isolation: the bytes of channel `ch` are those of its own
/// records alone; records of the other channel add nothing to them.
pub proof fn lemma_channel_isolation(recs: Seq<(UartTxChannel, Seq<u8>)>, ch: UartTxChannel)
    ensures
        channel_stream(recs, ch) == channel_stream(records_on(recs, ch), ch),
        forall|i: int|
            0 <= i < records_on(recs, ch).len() ==> (#[trigger] records_on(recs, ch)[i]).0 == ch,
    decreases recs.len(),
{
    if recs.len() > 0 {
        lemma_channel_isolation(recs.drop_last(), ch);
        let sub = records_on(recs.drop_last(), ch);
        if recs.last().0 == ch {
            assert(sub.push(recs.last()).drop_last() =~= sub);
            assert forall|i: int| 0 <= i < records_on(recs, ch).len() implies (#[trigger] records_on(
                recs,
                ch,
            )[i]).0 == ch by {
                if i < sub.len() {
                    assert(records_on(recs, ch)[i] == sub[i]);
                }
            }
        }
    }
}

/// `frames` frame the records `recs`, one frame per record, in order.
pub open spec fn frames_written(
    frames: Seq<CapturedFrame>,
    recs: Seq<(UartTxChannel, Seq<u8>)>,
) -> bool {
    &&& frames.len() == recs.len()
    &&& forall|i: int|
        0 <= i < frames.len() ==> {
            &&& is_frame_of((#[trigger] frames[i]).data@, recs[i].0, recs[i].1)
            &&& frames[i].orig_len == frames[i].data@.len()
        }
}

/// Frames written one after the other frame the records one after the other.
pub proof fn lemma_frames_written_append(
    f1: Seq<CapturedFrame>,
    r1: Seq<(UartTxChannel, Seq<u8>)>,
    f2: Seq<CapturedFrame>,
    r2: Seq<(UartTxChannel, Seq<u8>)>,
)
    requires
        frames_written(f1, r1),
        frames_written(f2, r2),
    ensures
        frames_written(f1 + f2, r1 + r2),
{
    assert forall|i: int| 0 <= i < (f1 + f2).len() implies {
        &&& is_frame_of((#[trigger] (f1 + f2)[i]).data@, (r1 + r2)[i].0, (r1 + r2)[i].1)
        &&& (f1 + f2)[i].orig_len == (f1 + f2)[i].data@.len()
    } by {
        if i >= f1.len() {
            assert((f1 + f2)[i] == f2[i - f1.len()]);
            assert((r1 + r2)[i] == r2[i - r1.len()]);
        }
    }
}

/// The bytes of channel `ch` in a single run `(c0, b)`.
pub proof fn lemma_channel_stream_single(c0: UartTxChannel, b: Seq<u8>, ch: UartTxChannel)
    ensures
        channel_stream(seq![(c0, b)], ch) == if c0 == ch {
            b
        } else {
            Seq::<u8>::empty()
        },
{
    let one = seq![(c0, b)];
    assert(one.drop_last() =~= Seq::<(UartTxChannel, Seq<u8>)>::empty());
    assert(one.last() == (c0, b));
    assert(channel_stream(one.drop_last(), ch) == Seq::<u8>::empty());
    assert(Seq::<u8>::empty() + b =~= b);
}

} // verus!
