//! Record data as a replay sees it: bytes that may still hold
//! resynchronisation markers written by earlier capture producers.
use bytes::BytesMut;
use vstd::prelude::*;

use crate::byte_buf::{bytes_as_slice, bytes_len, bytes_of, bytes_split_to, bytes_unsplit};
use crate::mux::TRIG_BYTE;

verus! {

/// Index of the first marker in `s`, or its length when it holds none.
pub open spec fn first_trigger(s: Seq<u8>) -> int
    decreases s.len(),
{
    if s.len() == 0 {
        0
    } else if s[0] == TRIG_BYTE {
        0
    } else {
        1 + first_trigger(s.skip(1))
    }
}

/// When no marker comes before index `i` and `s[i]` is one (or `i` is the
/// end), `i` is the first marker's index.
proof fn lemma_first_trigger_at(s: Seq<u8>, i: int)
    requires
        0 <= i <= s.len(),
        forall|k: int| 0 <= k < i ==> s[k] != TRIG_BYTE,
        i < s.len() ==> s[i] == TRIG_BYTE,
    ensures
        first_trigger(s) == i,
    decreases s.len(),
{
    if s.len() > 0 && s[0] != TRIG_BYTE {
        assert forall|k: int| 0 <= k < i - 1 implies s.skip(1)[k] != TRIG_BYTE by {
            assert(s.skip(1)[k] == s[k + 1]);
        }
        lemma_first_trigger_at(s.skip(1), i - 1);
    }
}

/// The bytes of one record, with the markers they may hold.
pub struct DataWithTrigger {
    data: BytesMut,
}

impl DataWithTrigger {
    /// The bytes left.
    pub closed spec fn bytes(&self) -> Seq<u8> {
        bytes_of(self.data)
    }

    /// Wraps the bytes of a record.
    pub fn new(data: BytesMut) -> (r: Self)
        ensures
            r.bytes() == bytes_of(data),
    {
        DataWithTrigger { data }
    }

    /// The bytes before the first marker (all of them when there is none).
    pub fn as_slice(&self) -> (r: &[u8])
        ensures
            r@ == self.bytes().take(first_trigger(self.bytes())),
    {
        let all = bytes_as_slice(&self.data);
        let n = all.len();
        let mut i: usize = 0;
        while i < n && all[i] != TRIG_BYTE
            invariant
                n == all@.len(),
                i <= n,
                forall|k: int| 0 <= k < i ==> all@[k] != TRIG_BYTE,
            decreases n - i,
        {
            i = i + 1;
        }
        proof {
            lemma_first_trigger_at(all@, i as int);
        }
        vstd::slice::slice_subrange(all, 0, i)
    }

    /// Whether no byte is left.
    pub fn is_empty(&self) -> (r: bool)
        ensures
            r == (self.bytes().len() == 0),
    {
        bytes_len(&self.data) == 0
    }

    /// Removes and returns the first `len` bytes.
    pub fn consume(&mut self, len: usize) -> (r: BytesMut)
        requires
            len <= old(self).bytes().len(),
        ensures
            bytes_of(r) == old(self).bytes().take(len as int),
            final(self).bytes() == old(self).bytes().skip(len as int),
    {
        bytes_split_to(&mut self.data, len)
    }

    /// Removes the first marker, if there is one, and says whether there was.
    pub fn check_trigger(&mut self) -> (r: bool)
        ensures
            r == (first_trigger(old(self).bytes()) < old(self).bytes().len()),
            r ==> final(self).bytes() == old(self).bytes().remove(
                first_trigger(old(self).bytes()),
            ),
            !r ==> final(self).bytes() == old(self).bytes(),
    {
        let all = bytes_as_slice(&self.data);
        let n = all.len();
        let mut i: usize = 0;
        while i < n && all[i] != TRIG_BYTE
            invariant
                n == all@.len(),
                i <= n,
                forall|k: int| 0 <= k < i ==> all@[k] != TRIG_BYTE,
            decreases n - i,
        {
            i = i + 1;
        }
        proof {
            lemma_first_trigger_at(all@, i as int);
        }
        if i == n {
            return false;
        }
        let ghost s = self.bytes();
        let mut head = bytes_split_to(&mut self.data, i);
        let _marker = bytes_split_to(&mut self.data, 1);
        let rest_len = bytes_len(&self.data);
        let rest = bytes_split_to(&mut self.data, rest_len);
        bytes_unsplit(&mut head, rest);
        self.data = head;
        assert(self.bytes() =~= s.remove(i as int));
        true
    }
}

} // verus!
