//! A bounded first-in first-out byte queue stored in a circular buffer.

use vstd::prelude::*;

verus! {

/// Position in a store of `cap` slots of the byte that lies `i` places after
/// the byte at `head` (for `head < cap` and `i <= cap`).
pub open spec fn slot(head: int, i: int, cap: int) -> int {
    if head + i < cap {
        head + i
    } else {
        head + i - cap
    }
}

/// The smaller of two integers.
pub open spec fn min_of(a: int, b: int) -> int {
    if a <= b {
        a
    } else {
        b
    }
}

/// How many of `offered` bytes a queue of capacity `cap` holding `queued`
/// bytes takes: all of them if they fit, else as many as there is room for.
pub open spec fn accepted_count(queued: nat, cap: nat, offered: nat) -> int {
    min_of(offered as int, cap - queued)
}

/// How many of `queued` bytes a read into `room` bytes of space moves out.
pub open spec fn delivered_count(queued: nat, room: nat) -> int {
    min_of(room as int, queued as int)
}

/// Whether the bytes `delivered` out of a queue so far, followed by the bytes
/// still `queued` in it, are exactly the bytes `received` by it so far.
pub open spec fn stream_intact(received: Seq<u8>, queued: Seq<u8>, delivered: Seq<u8>) -> bool {
    delivered + queued == received
}

/// A bounded byte queue: bytes leave in the order in which they came in,
/// and at most `capacity` of them are held at once.
pub struct SpscBuffer {
    data: Vec<u8>,
    head: usize,
    len: usize,
}

impl SpscBuffer {
    #[verifier::type_invariant]
    spec fn well_formed(self) -> bool {
        &&& self.data@.len() > 0
        &&& self.head < self.data@.len()
        &&& self.len <= self.data@.len()
    }

    /// How many bytes the queue can hold.
    pub closed spec fn cap(self) -> nat {
        self.data@.len()
    }

    /// The queued bytes, oldest first.
    pub closed spec fn contents(self) -> Seq<u8> {
        Seq::new(
            self.len as nat,
            |i: int| self.data@[slot(self.head as int, i, self.data@.len() as int)],
        )
    }
}

impl View for SpscBuffer {
    type V = Seq<u8>;

    closed spec fn view(&self) -> Seq<u8> {
        self.contents()
    }
}

impl SpscBuffer {
    /// An empty queue that can hold `capacity` bytes.
    pub fn new(capacity: usize) -> (buf: Self)
        requires
            capacity > 0,
        ensures
            buf@ == Seq::<u8>::empty(),
            buf.cap() == capacity,
    {
        let mut data: Vec<u8> = Vec::new();
        while data.len() < capacity
            invariant
                data@.len() <= capacity,
            decreases capacity - data@.len(),
        {
            data.push(0u8);
        }
        let buf = SpscBuffer { data, head: 0, len: 0 };
        assert(buf.contents() =~= Seq::<u8>::empty());
        buf
    }

    /// How many bytes the queue can hold.
    pub fn capacity(&self) -> (n: usize)
        ensures
            n == self.cap(),
            n > 0,
            self@.len() <= n,
    {
        proof {
            use_type_invariant(self);
        }
        self.data.len()
    }

    /// How many bytes are queued.
    pub fn len(&self) -> (n: usize)
        ensures
            n == self@.len(),
            n <= self.cap(),
    {
        proof {
            use_type_invariant(self);
        }
        self.len
    }

    /// Whether no byte is queued.
    pub fn is_empty(&self) -> (b: bool)
        ensures
            b <==> self@.len() == 0,
    {
        self.len == 0
    }

    /// Whether the queue holds as many bytes as it can.
    pub fn is_full(&self) -> (b: bool)
        ensures
            b <==> self@.len() == self.cap(),
            self@.len() <= self.cap(),
    {
        proof {
            use_type_invariant(self);
        }
        self.len == self.data.len()
    }

    /// Appends the first bytes of `src`, as many as there is room for, and
    /// says how many it took.
    pub fn write_from_slice(&mut self, src: &[u8]) -> (n: usize)
        ensures
            n == accepted_count(old(self)@.len(), old(self).cap(), src@.len()),
            final(self).cap() == old(self).cap(),
            final(self)@ == old(self)@ + src@.subrange(0, n as int),
    {
        proof {
            use_type_invariant(&*self);
        }
        let cap = self.data.len();
        let head = self.head;
        let len = self.len;
        let room = cap - len;
        let n = if src.len() < room {
            src.len()
        } else {
            room
        };
        let mut pos = if len < cap - head {
            head + len
        } else {
            len - (cap - head)
        };
        let ghost before = self.data@;
        let mut i: usize = 0;
        while i < n
            invariant
                cap == before.len(),
                0 < cap,
                head < cap,
                len + n <= cap,
                n <= src@.len(),
                i <= n,
                self.head == head,
                self.len == len,
                self.data@.len() == cap,
                pos == slot(head as int, len + i, cap as int),
                forall|j: int|
                    0 <= j < len ==> #[trigger] self.data@[slot(head as int, j, cap as int)]
                        == before[slot(head as int, j, cap as int)],
                forall|j: int|
                    0 <= j < i ==> #[trigger] self.data@[slot(head as int, len + j, cap as int)]
                        == src@[j],
            decreases n - i,
        {
            self.data[pos] = src[i];
            pos = if pos + 1 == cap {
                0
            } else {
                pos + 1
            };
            i = i + 1;
        }
        self.len = len + n;
        let ghost queued = Seq::new(len as nat, |j: int| before[slot(head as int, j, cap as int)]);
        assert(self.contents() =~= queued + src@.subrange(0, n as int)) by {
            assert forall|j: int| 0 <= j < len + n implies #[trigger] self.contents()[j] == (
            queued + src@.subrange(0, n as int))[j] by {
                if j >= len {
                    assert(self.data@[slot(head as int, len + (j - len), cap as int)] == src@[j
                        - len]);
                }
            }
        }
        n
    }

    /// Moves the oldest queued bytes, as many as `dst` has room for, to the
    /// front of `dst`, and says how many it moved. The rest of `dst` is left
    /// as it was.
    pub fn read_to_slice(&mut self, dst: &mut [u8]) -> (n: usize)
        ensures
            n == delivered_count(old(self)@.len(), old(dst)@.len()),
            final(dst)@.len() == old(dst)@.len(),
            final(dst)@.subrange(0, n as int) == old(self)@.subrange(0, n as int),
            final(dst)@.subrange(n as int, old(dst)@.len() as int) == old(dst)@.subrange(
                n as int,
                old(dst)@.len() as int,
            ),
            final(self).cap() == old(self).cap(),
            final(self)@ == old(self)@.subrange(n as int, old(self)@.len() as int),
    {
        proof {
            use_type_invariant(&*self);
        }
        let cap = self.data.len();
        let head = self.head;
        let len = self.len;
        let n = if dst.len() < len {
            dst.len()
        } else {
            len
        };
        let ghost queued = self@;
        let ghost old_dst = dst@;
        let mut pos = head;
        let mut i: usize = 0;
        while i < n
            invariant
                0 < cap,
                head < cap,
                len <= cap,
                n <= len,
                n <= old_dst.len(),
                i <= n,
                self.data@.len() == cap,
                self.head == head,
                self.len == len,
                queued == self@,
                dst@.len() == old_dst.len(),
                pos == slot(head as int, i as int, cap as int),
                forall|j: int| 0 <= j < i ==> #[trigger] dst@[j] == queued[j],
                forall|j: int| i <= j < old_dst.len() ==> #[trigger] dst@[j] == old_dst[j],
            decreases n - i,
        {
            dst[i] = self.data[pos];
            pos = if pos + 1 == cap {
                0
            } else {
                pos + 1
            };
            i = i + 1;
        }
        self.head = pos;
        self.len = len - n;
        assert(self.contents() =~= queued.subrange(n as int, len as int)) by {
            assert forall|j: int| 0 <= j < len - n implies #[trigger] self.contents()[j]
                == queued[n + j] by {
                assert(slot(pos as int, j, cap as int) == slot(head as int, n + j, cap as int));
            }
        }
        assert(dst@.subrange(0, n as int) =~= queued.subrange(0, n as int));
        assert(dst@.subrange(n as int, old_dst.len() as int) =~= old_dst.subrange(
            n as int,
            old_dst.len() as int,
        ));
        n
    }
}

/// A write takes every offered byte when they fit and fills the queue to its
/// capacity when they do not; the queue never holds more than its capacity.
pub proof fn law_write_takes_what_fits(queued: Seq<u8>, cap: nat, src: Seq<u8>)
    requires
        queued.len() <= cap,
    ensures
        ({
            let n = accepted_count(queued.len(), cap, src.len());
            &&& 0 <= n <= src.len()
            &&& (n == src.len() <==> queued.len() + src.len() <= cap)
            &&& n < src.len() ==> (queued + src.subrange(0, n)).len() == cap
            &&& (queued + src.subrange(0, n)).len() <= cap
        }),
{
}

/// A write keeps the byte stream intact: the bytes it takes join the queue
/// after those already there, just as they join the bytes received.
pub proof fn law_write_keeps_stream(
    received: Seq<u8>,
    queued: Seq<u8>,
    delivered: Seq<u8>,
    cap: nat,
    src: Seq<u8>,
)
    requires
        stream_intact(received, queued, delivered),
        queued.len() <= cap,
    ensures
        ({
            let n = accepted_count(queued.len(), cap, src.len());
            stream_intact(received + src.subrange(0, n), queued + src.subrange(0, n), delivered)
        }),
{
    let n = accepted_count(queued.len(), cap, src.len());
    assert(delivered + (queued + src.subrange(0, n)) =~= (delivered + queued) + src.subrange(0, n));
}

/// A read keeps the byte stream intact and hands out the oldest bytes not
/// yet delivered, in the order in which they were received.
pub proof fn law_read_delivers_oldest_first(
    received: Seq<u8>,
    queued: Seq<u8>,
    delivered: Seq<u8>,
    room: nat,
)
    requires
        stream_intact(received, queued, delivered),
    ensures
        ({
            let m = delivered_count(queued.len(), room);
            &&& 0 <= m <= queued.len()
            &&& queued.subrange(0, m) == received.subrange(
                delivered.len() as int,
                delivered.len() + m,
            )
            &&& stream_intact(
                received,
                queued.subrange(m, queued.len() as int),
                delivered + queued.subrange(0, m),
            )
        }),
{
    let m = delivered_count(queued.len(), room);
    assert(queued.subrange(0, m) =~= received.subrange(delivered.len() as int, delivered.len() + m));
    assert((delivered + queued.subrange(0, m)) + queued.subrange(m, queued.len() as int) =~= received);
}

} // verus!
