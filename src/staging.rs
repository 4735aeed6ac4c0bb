//! A fixed-capacity byte buffer for the interrupt side of a UART.
//!
//! Bytes are appended at the tail and consumed from the front. The buffer
//! never allocates: when an append does not fit, the unconsumed bytes are
//! first moved to the start of the storage, and only if that is still not
//! enough are the oldest unconsumed bytes dropped, no more of them than the
//! append needs.
use vstd::prelude::*;

verus! {

/// Number of bytes a [`UartBuf`] can hold; sized to the largest frame of the
/// bus protocol.
pub const UART_BUF_CAP: usize = 20;

/// `a + b`, or `u64::MAX` when the sum does not fit.
pub open spec fn sat_add(a: u64, b: int) -> u64 {
    if a + b > u64::MAX {
        u64::MAX
    } else {
        (a + b) as u64
    }
}

/// Staging buffer between a UART interrupt and the task that parses its bytes.
pub struct UartBuf {
    len: usize,
    read_pos: usize,
    data: [u8; 20],
    dropped: u64,
}

impl UartBuf {
    /// Position of the first unconsumed byte in the storage.
    pub closed spec fn cursor(&self) -> int {
        self.read_pos as int
    }

    /// Number of unconsumed bytes.
    pub closed spec fn length(&self) -> int {
        self.len as int
    }

    /// How many bytes were dropped for lack of room, saturating.
    pub closed spec fn dropped_count(&self) -> u64 {
        self.dropped
    }

    /// The whole storage array.
    pub closed spec fn storage(&self) -> Seq<u8> {
        self.data@
    }

    /// The buffer's invariant: the unconsumed bytes lie inside the storage.
    pub open spec fn wf(&self) -> bool {
        &&& 0 <= self.cursor()
        &&& 0 <= self.length()
        &&& self.cursor() + self.length() <= UART_BUF_CAP
        &&& self.storage().len() == UART_BUF_CAP
    }

    /// The unconsumed bytes, oldest first.
    pub open spec fn content(&self) -> Seq<u8> {
        self.storage().subrange(self.cursor(), self.cursor() + self.length())
    }

    /// Free space behind the unconsumed bytes.
    pub open spec fn spec_tail_capacity(&self) -> int {
        UART_BUF_CAP - (self.cursor() + self.length())
    }

    /// An empty buffer.
    pub fn new() -> (r: Self)
        ensures
            r.wf(),
            r.cursor() == 0,
            r.length() == 0,
            r.content() == Seq::<u8>::empty(),
            r.dropped_count() == 0,
    {
        UartBuf { len: 0, read_pos: 0, data: [0u8; 20], dropped: 0 }
    }

    /// How many bytes were dropped for lack of room, saturating at
    /// `u64::MAX`.
    pub fn dropped(&self) -> (r: u64)
        ensures
            r == self.dropped_count(),
    {
        self.dropped
    }

    /// Adds `n` to the count of dropped bytes.
    fn count_dropped(&mut self, n: usize)
        ensures
            final(self).dropped_count() == sat_add(old(self).dropped_count(), n as int),
            final(self).storage() == old(self).storage(),
            final(self).cursor() == old(self).cursor(),
            final(self).length() == old(self).length(),
    {
        let n = n as u64;
        if self.dropped > u64::MAX - n {
            self.dropped = u64::MAX;
        } else {
            self.dropped = self.dropped + n;
        }
    }

    /// The unconsumed bytes, without copying.
    pub fn as_slice(&self) -> (r: &[u8])
        requires
            self.wf(),
        ensures
            r@ == self.content(),
    {
        let all: &[u8] = self.data.as_slice();
        vstd::slice::slice_subrange(all, self.read_pos, self.read_pos + self.len)
    }

    /// Free space behind the unconsumed bytes.
    pub fn tail_capacity(&self) -> (r: usize)
        requires
            self.wf(),
        ensures
            r == self.spec_tail_capacity(),
    {
        UART_BUF_CAP - (self.read_pos + self.len)
    }

    /// Moves the unconsumed bytes to the start of the storage.
    fn compact(&mut self)
        requires
            old(self).wf(),
        ensures
            final(self).wf(),
            final(self).cursor() == 0,
            final(self).length() == old(self).length(),
            final(self).content() == old(self).content(),
            final(self).dropped_count() == old(self).dropped_count(),
    {
        let ghost before = self.data@;
        let start = self.read_pos;
        let n = self.len;
        let mut i: usize = 0;
        while i < n
            invariant
                self.read_pos == start,
                self.len == n,
                self.dropped == old(self).dropped,
                start + n <= UART_BUF_CAP,
                before.len() == UART_BUF_CAP,
                self.data@.len() == UART_BUF_CAP,
                0 <= i <= n,
                forall|k: int| 0 <= k < i ==> self.data@[k] == before[start + k],
                forall|k: int| i <= k < UART_BUF_CAP ==> self.data@[k] == before[k],
            decreases n - i,
        {
            let b = self.data[start + i];
            self.data[i] = b;
            i = i + 1;
        }
        self.read_pos = 0;
        assert(self.content() =~= before.subrange(start as int, start + n as int));
    }

    /// Makes room for `min_cap` bytes at the tail and returns the free space
    /// there. The unconsumed bytes are moved to the front only when the tail
    /// is too short; the oldest are dropped only when even that is not
    /// enough, and then no more than needed.
    pub fn tail_slice(&mut self, min_cap: usize) -> (r: usize)
        requires
            old(self).wf(),
        ensures
            final(self).wf(),
            final(self).dropped_count() == sat_add(
                old(self).dropped_count(),
                old(self).length() - final(self).length(),
            ),
            r == final(self).spec_tail_capacity(),
            min_cap <= UART_BUF_CAP ==> r >= min_cap,
            min_cap > UART_BUF_CAP ==> r == UART_BUF_CAP,
            min_cap + old(self).length() <= UART_BUF_CAP ==> final(self).content()
                == old(self).content(),
            min_cap + old(self).length() > UART_BUF_CAP ==> final(self).content()
                == old(self).content().skip(
                if min_cap > UART_BUF_CAP {
                    old(self).length()
                } else {
                    min_cap + old(self).length() - UART_BUF_CAP
                },
            ),
            old(self).length() > 0 && old(self).spec_tail_capacity() >= min_cap ==> {
                &&& final(self).storage() == old(self).storage()
                &&& final(self).cursor() == old(self).cursor()
            },
    {
        if self.is_empty() {
            self.read_pos = 0;
            assert(self.content() =~= old(self).content());
        }
        let tail_cap = self.tail_capacity();
        let tot_spare_cap = tail_cap + self.read_pos;
        if tot_spare_cap < min_cap {
            let held = self.len;
            self.consume(min_cap - tot_spare_cap);
            self.count_dropped(held - self.len);
        }
        if self.tail_capacity() < min_cap {
            self.compact();
        }
        self.tail_capacity()
    }

    /// Counts `new` bytes written into the tail as unconsumed, as many of
    /// them as the tail holds.
    pub fn incr_len(&mut self, new: usize)
        requires
            old(self).wf(),
        ensures
            final(self).wf(),
            final(self).dropped_count() == old(self).dropped_count(),
            final(self).storage() == old(self).storage(),
            final(self).cursor() == old(self).cursor(),
            final(self).length() == old(self).length() + (if new
                <= old(self).spec_tail_capacity() {
                new as int
            } else {
                old(self).spec_tail_capacity()
            }),
            final(self).content() == old(self).content() + old(self).storage().subrange(
                old(self).cursor() + old(self).length(),
                final(self).cursor() + final(self).length(),
            ),
    {
        let tail = self.tail_capacity();
        let new = if tail < new {
            tail
        } else {
            new
        };
        self.len = self.len + new;
        assert(self.content() =~= old(self).content() + old(self).storage().subrange(
            old(self).cursor() + old(self).length(),
            self.cursor() + self.length(),
        ));
    }

    /// Appends `data`. When it does not fit even after compaction, the oldest
    /// bytes (of the buffer, then of `data`) are dropped: the buffer then holds
    /// the last [`UART_BUF_CAP`] bytes of its old content followed by `data`.
    pub fn write(&mut self, data: &[u8])
        requires
            old(self).wf(),
        ensures
            final(self).wf(),
            final(self).content() == (old(self).content() + data@).skip(
                if old(self).length() + data@.len() > UART_BUF_CAP {
                    old(self).length() + data@.len() - UART_BUF_CAP
                } else {
                    0
                },
            ),
            old(self).length() + data@.len() <= UART_BUF_CAP ==> final(self).content()
                == old(self).content() + data@,
            final(self).dropped_count() == sat_add(
                old(self).dropped_count(),
                if old(self).length() + data@.len() > UART_BUF_CAP {
                    old(self).length() + data@.len() - UART_BUF_CAP
                } else {
                    0
                },
            ),
    {
        let ghost whole = old(self).content() + data@;
        let ghost in_len = data@.len();
        let ghost drop = if old(self).length() + data@.len() > UART_BUF_CAP {
            old(self).length() + data@.len() - UART_BUF_CAP
        } else {
            0
        };
        let data = if data.len() > UART_BUF_CAP {
            let excess = data.len() - UART_BUF_CAP;
            self.count_dropped(excess);
            vstd::slice::slice_subrange(data, excess, data.len())
        } else {
            data
        };
        let n = data.len();
        let ghost before_room = self.content();
        let ghost d1 = self.dropped;
        let ghost len1 = self.length();
        let room = self.tail_slice(n);
        let ghost dropped_after = self.dropped;
        assert(dropped_after == sat_add(old(self).dropped_count(), drop)) by {
            assert(len1 == old(self).length());
            assert(self.content().len() == self.length());
            let excess = if in_len > UART_BUF_CAP {
                in_len - UART_BUF_CAP
            } else {
                0
            };
            assert(d1 == sat_add(old(self).dropped_count(), excess));
            let k = len1 - self.length();
            assert(dropped_after == sat_add(d1, k));
            if len1 + n > UART_BUF_CAP {
                assert(k == len1 + n - UART_BUF_CAP);
            } else {
                assert(k == 0);
            }
            assert(excess + k == drop);
        }
        let wr_pos = self.read_pos + self.len;
        let ghost kept = self.content();
        let ghost base = self.data@;
        let mut i: usize = 0;
        while i < n
            invariant
                self.wf(),
                self.dropped == dropped_after,
                wr_pos == self.cursor() + self.length(),
                wr_pos + n <= UART_BUF_CAP,
                n == data@.len(),
                base.len() == UART_BUF_CAP,
                0 <= i <= n,
                forall|k: int| 0 <= k < wr_pos ==> self.data@[k] == base[k],
                forall|k: int| 0 <= k < i ==> self.data@[wr_pos + k] == data@[k],
                self.content() == kept,
                kept == base.subrange(self.cursor(), wr_pos as int),
            decreases n - i,
        {
            self.data[wr_pos + i] = data[i];
            i = i + 1;
            assert(self.content() =~= base.subrange(self.cursor(), wr_pos as int));
        }
        let ghost filled = self.data@;
        self.incr_len(n);
        assert(self.content() =~= kept + data@);
        assert(self.content() =~= whole.skip(drop));
    }

    /// Drops the oldest `len` bytes, or all of them if fewer are held.
    pub fn consume(&mut self, len: usize)
        requires
            old(self).wf(),
        ensures
            final(self).wf(),
            final(self).dropped_count() == old(self).dropped_count(),
            final(self).storage() == old(self).storage(),
            final(self).content() == old(self).content().skip(
                if len < old(self).length() {
                    len as int
                } else {
                    old(self).length()
                },
            ),
            final(self).length() == old(self).length() - (if len < old(self).length() {
                len as int
            } else {
                old(self).length()
            }),
            final(self).cursor() + final(self).length() == old(self).cursor()
                + old(self).length(),
    {
        let len = if len < self.len {
            len
        } else {
            self.len
        };
        self.read_pos = self.read_pos + len;
        self.len = self.len - len;
        assert(self.content() =~= old(self).content().skip(len as int));
    }

    /// Whether no unconsumed byte is held.
    pub fn is_empty(&self) -> (r: bool)
        ensures
            r == (self.length() == 0),
    {
        self.len == 0
    }

    /// Number of unconsumed bytes.
    pub fn len(&self) -> (r: usize)
        ensures
            r == self.length(),
    {
        self.len
    }
}

impl Default for UartBuf {
    fn default() -> (r: Self)
        ensures
            r.wf(),
            r.length() == 0,
            r.dropped_count() == 0,
    {
        Self::new()
    }
}

} // verus!
