//! Splitting a muxed single-wire stream into per-channel runs.
//!
//! On a muxed wire both parties' bytes arrive on one line. The top bit of
//! each byte says which party sent it and is not protocol data; one reserved
//! byte value marks a resynchronisation point and carries no data.
use vstd::prelude::*;

use crate::channel::UartTxChannel;
use crate::record::channel_stream;

verus! {

/// The resynchronisation marker of a muxed stream.
pub const TRIG_BYTE: u8 = 0x0a;

/// The channel that byte `b` of a muxed stream belongs to.
pub open spec fn tag_of(b: u8) -> UartTxChannel {
    if b >= 0x80 {
        UartTxChannel::Ctrl
    } else {
        UartTxChannel::Node
    }
}

/// Byte `b` with its channel bit cleared.
pub open spec fn untag(b: u8) -> u8 {
    if b >= 0x80 {
        (b - 0x80) as u8
    } else {
        b
    }
}

/// The runs that a muxed chunk `s` splits into: markers are dropped, each
/// other byte is untagged and joins the last run if that run has its
/// channel, else opens a new run.
pub open spec fn mux_runs(s: Seq<u8>) -> Seq<(UartTxChannel, Seq<u8>)>
    decreases s.len(),
{
    if s.len() == 0 {
        Seq::empty()
    } else {
        let prev = mux_runs(s.drop_last());
        let b = s.last();
        if b == TRIG_BYTE {
            prev
        } else if prev.len() > 0 && prev.last().0 == tag_of(b) {
            prev.update(prev.len() - 1, (tag_of(b), prev.last().1.push(untag(b))))
        } else {
            prev.push((tag_of(b), seq![untag(b)]))
        }
    }
}

/// The untagged bytes of channel `ch` in a muxed stream, markers removed.
pub open spec fn channel_payload(s: Seq<u8>, ch: UartTxChannel) -> Seq<u8>
    decreases s.len(),
{
    if s.len() == 0 {
        Seq::empty()
    } else {
        let b = s.last();
        if b != TRIG_BYTE && tag_of(b) == ch {
            channel_payload(s.drop_last(), ch).push(untag(b))
        } else {
            channel_payload(s.drop_last(), ch)
        }
    }
}

/// One run of a muxed chunk: bytes of one channel, untagged.
pub struct MuxRun {
    pub ch: UartTxChannel,
    pub data: Vec<u8>,
}

/// What one chunk of a muxed stream splits into.
pub struct Demuxed {
    /// The runs, in order; neighbouring runs have different channels.
    pub runs: Vec<MuxRun>,
    /// Whether the chunk held a resynchronisation marker.
    pub resync: bool,
}

/// The runs as channel and bytes.
pub open spec fn runs_view(runs: Seq<MuxRun>) -> Seq<(UartTxChannel, Seq<u8>)> {
    Seq::new(runs.len(), |i: int| (runs[i].ch, runs[i].data@))
}

/// The channel that a muxed byte belongs to.
pub fn tag_channel(b: u8) -> (r: UartTxChannel)
    ensures
        r == tag_of(b),
{
    if b & 0x80 == 0x80 {
        assert(b >= 0x80) by (bit_vector)
            requires
                b & 0x80 == 0x80,
        ;
        UartTxChannel::Ctrl
    } else {
        assert(b < 0x80) by (bit_vector)
            requires
                b & 0x80 != 0x80,
        ;
        UartTxChannel::Node
    }
}

/// Splits one chunk of a muxed stream into runs of consecutive bytes of
/// one channel, with markers dropped and channel bits cleared. A chunk of
/// markers only gives no run.
pub fn demux_chunk(chunk: &[u8]) -> (r: Demuxed)
    ensures
        runs_view(r.runs@) == mux_runs(chunk@),
        r.resync == chunk@.contains(TRIG_BYTE),
{
    let n = chunk.len();
    let mut runs: Vec<MuxRun> = Vec::new();
    let mut cur: Vec<u8> = Vec::new();
    let mut cur_ch = UartTxChannel::Node;
    let mut open = false;
    let mut resync = false;
    let mut i: usize = 0;
    while i < n
        invariant
            n == chunk@.len(),
            i <= n,
            open ==> cur@.len() > 0,
            !open ==> runs@.len() == 0,
            mux_runs(chunk@.take(i as int)) == if open {
                runs_view(runs@).push((cur_ch, cur@))
            } else {
                runs_view(runs@)
            },
            resync == chunk@.take(i as int).contains(TRIG_BYTE),
        decreases n - i,
    {
        let b = chunk[i];
        let ghost prev = mux_runs(chunk@.take(i as int));
        assert(chunk@.take(i + 1).drop_last() =~= chunk@.take(i as int));
        assert(chunk@.take(i + 1).last() == b);
        if b == TRIG_BYTE {
            resync = true;
            assert(chunk@.take(i + 1)[i as int] == b);
        } else {
            let ch = tag_channel(b);
            let u = b & 0x7f;
            assert(u == untag(b)) by (bit_vector)
                requires
                    u == b & 0x7f,
            ;
            if open && cur_ch == ch {
                cur.push(u);
                assert(prev.len() > 0);
                assert(prev.update(prev.len() - 1, (ch, prev.last().1.push(u))) =~= runs_view(
                    runs@,
                ).push((cur_ch, cur@)));
            } else {
                if open {
                    let run = MuxRun { ch: cur_ch, data: cur };
                    runs.push(run);
                    assert(runs_view(runs@) =~= prev);
                }
                cur = Vec::new();
                cur.push(u);
                cur_ch = ch;
                open = true;
                assert(prev.push((ch, seq![u])) =~= runs_view(runs@).push((cur_ch, cur@)));
            }
        }
        proof {
            let s1 = chunk@.take(i + 1);
            assert(s1 =~= chunk@.take(i as int).push(b));
            if b != TRIG_BYTE {
                assert(s1.contains(TRIG_BYTE) == chunk@.take(i as int).contains(TRIG_BYTE)) by {
                    if s1.contains(TRIG_BYTE) {
                        let k = choose|k: int| 0 <= k < s1.len() && s1[k] == TRIG_BYTE;
                        assert(k < i);
                        assert(chunk@.take(i as int)[k] == TRIG_BYTE);
                    }
                }
            }
        }
        i = i + 1;
    }
    if open {
        runs.push(MuxRun { ch: cur_ch, data: cur });
    }
    assert(chunk@.take(n as int) =~= chunk@);
    assert(runs_view(runs@) =~= mux_runs(chunk@));
    Demuxed { runs, resync }
}

/// Demultiplexing loses, adds and reorders nothing: the runs of channel
/// `ch`, joined, are exactly the untagged bytes of `ch` in the stream, with
/// markers removed.
pub proof fn lemma_demux_reconstructs(s: Seq<u8>, ch: UartTxChannel)
    ensures
        channel_stream(mux_runs(s), ch) == channel_payload(s, ch),
    decreases s.len(),
{
    if s.len() > 0 {
        let prev = mux_runs(s.drop_last());
        lemma_demux_reconstructs(s.drop_last(), ch);
        let b = s.last();
        if b == TRIG_BYTE {
        } else if prev.len() > 0 && prev.last().0 == tag_of(b) {
            let next = prev.update(prev.len() - 1, (tag_of(b), prev.last().1.push(untag(b))));
            assert(next.drop_last() =~= prev.drop_last());
            if tag_of(b) == ch {
                assert(channel_stream(prev.drop_last(), ch) + prev.last().1.push(untag(b))
                    =~= (channel_stream(prev.drop_last(), ch) + prev.last().1).push(untag(b)));
            }
        } else {
            let next = prev.push((tag_of(b), seq![untag(b)]));
            assert(next.drop_last() =~= prev);
            assert(channel_stream(prev, ch) + seq![untag(b)] =~= channel_stream(prev, ch).push(
                untag(b),
            ));
        }
    }
}

/// How the stream was cut into chunks does not matter: the bytes of a
/// channel in two consecutive chunks are those of the first followed by
/// those of the second.
pub proof fn lemma_payload_of_chunks(s1: Seq<u8>, s2: Seq<u8>, ch: UartTxChannel)
    ensures
        channel_payload(s1 + s2, ch) == channel_payload(s1, ch) + channel_payload(s2, ch),
    decreases s2.len(),
{
    if s2.len() == 0 {
        assert(s1 + s2 =~= s1);
        assert(channel_payload(s1, ch) + channel_payload(s2, ch) =~= channel_payload(s1, ch));
    } else {
        lemma_payload_of_chunks(s1, s2.drop_last(), ch);
        assert((s1 + s2).drop_last() =~= s1 + s2.drop_last());
        assert((s1 + s2).last() == s2.last());
        let b = s2.last();
        if b != TRIG_BYTE && tag_of(b) == ch {
            assert(channel_payload(s1, ch) + channel_payload(s2.drop_last(), ch).push(untag(b))
                =~= (channel_payload(s1, ch) + channel_payload(s2.drop_last(), ch)).push(
                untag(b),
            ));
        }
    }
}

/// Neighbouring runs of a chunk belong to different channels, and no run is
/// empty.
pub proof fn lemma_runs_alternate(s: Seq<u8>)
    ensures
        forall|i: int| 0 <= i < mux_runs(s).len() ==> (#[trigger] mux_runs(s)[i]).1.len() > 0,
        forall|i: int|
            0 < i < mux_runs(s).len() ==> (#[trigger] mux_runs(s)[i]).0 != mux_runs(s)[i - 1].0,
    decreases s.len(),
{
    if s.len() > 0 {
        lemma_runs_alternate(s.drop_last());
        let prev = mux_runs(s.drop_last());
        let b = s.last();
        if b != TRIG_BYTE && !(prev.len() > 0 && prev.last().0 == tag_of(b)) {
            let next = prev.push((tag_of(b), seq![untag(b)]));
            assert forall|i: int| 0 < i < next.len() implies (#[trigger] next[i]).0 != next[i
                - 1].0 by {
                if i < prev.len() {
                    assert(next[i] == prev[i]);
                }
            }
        }
    }
}

} // verus!
