//! A fixed-size FIFO of bytes that drops the oldest bytes when it overflows
//! and always hands out its contents as one contiguous slice.
//!
//! The storage is twice the capacity long and its upper half mirrors its
//! lower half, so the window `[head, head + len)` never has to wrap.
use vstd::prelude::*;

use crate::capacity::{is_realized_capacity, realized_capacity, ALLOCATION_GRANULARITY};

verus! {

/// The last `cap` bytes of `s` (all of `s` when it is shorter).
pub open spec fn keep_last(s: Seq<u8>, cap: nat) -> Seq<u8> {
    if s.len() <= cap {
        s
    } else {
        s.subrange(s.len() - cap, s.len() as int)
    }
}

/// The position `i` brought back into `[0, m)`, for `-m <= i < 2m`.
pub open spec fn wrap(i: int, m: int) -> int {
    if i >= m {
        i - m
    } else if i < 0 {
        i + m
    } else {
        i
    }
}

/// Why a buffer could not be made.
#[derive(Debug, Clone, Copy, PartialEq, Eq)]
pub enum BufferError {
    /// No capacity that fits the address space meets the request.
    Allocation,
}

/// The index accounting of a ring of `size` bytes that is read through a
/// window of twice that size whose upper half mirrors its lower half: the
/// unread bytes are at `[head, head + len)` and the next ones go at `tail`.
pub struct RingCursor {
    size: usize,
    head: usize,
    tail: usize,
    len: usize,
}

impl RingCursor {
    pub closed spec fn size_spec(&self) -> nat {
        self.size as nat
    }

    pub closed spec fn head_spec(&self) -> nat {
        self.head as nat
    }

    pub closed spec fn tail_spec(&self) -> nat {
        self.tail as nat
    }

    pub closed spec fn len_spec(&self) -> nat {
        self.len as nat
    }

    pub closed spec fn wf(&self) -> bool {
        &&& 0 < self.size
        &&& 2 * self.size <= usize::MAX
        &&& self.head < self.size
        &&& self.tail < self.size
        &&& self.len <= self.size
        &&& self.tail == wrap(self.head + self.len, self.size as int)
    }

    /// What a well-formed cursor guarantees of its indices.
    pub proof fn lemma_bounds(&self)
        requires
            self.wf(),
        ensures
            0 < self.size_spec(),
            2 * self.size_spec() <= usize::MAX,
            self.head_spec() < self.size_spec(),
            self.tail_spec() < self.size_spec(),
            self.len_spec() <= self.size_spec(),
            self.tail_spec() == wrap((self.head_spec() + self.len_spec()) as int, self.size_spec() as int),
    {
    }

    /// An empty ring of `size` bytes.
    pub fn new(size: usize) -> (r: RingCursor)
        requires
            0 < size,
            2 * size <= usize::MAX,
        ensures
            r.wf(),
            r.size_spec() == size,
            r.head_spec() == 0,
            r.tail_spec() == 0,
            r.len_spec() == 0,
    {
        RingCursor { size, head: 0, tail: 0, len: 0 }
    }

    pub fn capacity(&self) -> (r: usize)
        ensures
            r == self.size_spec(),
    {
        self.size
    }

    /// Where the unread bytes start.
    pub fn head(&self) -> (r: usize)
        ensures
            r == self.head_spec(),
    {
        self.head
    }

    /// Where the next bytes go.
    pub fn tail(&self) -> (r: usize)
        ensures
            r == self.tail_spec(),
    {
        self.tail
    }

    /// The number of unread bytes.
    pub fn len(&self) -> (r: usize)
        ensures
            r == self.len_spec(),
    {
        self.len
    }

    pub fn is_full(&self) -> (r: bool)
        ensures
            r == (self.len_spec() == self.size_spec()),
    {
        self.len == self.size
    }

    /// Advances the window over `n` bytes that were just placed at `tail`;
    /// where the ring overflows, the oldest bytes are dropped.
    pub fn commit_write(&mut self, n: usize)
        requires
            old(self).wf(),
            n <= old(self).size_spec(),
        ensures
            final(self).wf(),
            final(self).size_spec() == old(self).size_spec(),
            final(self).tail_spec() == wrap(
                old(self).tail_spec() + n,
                old(self).size_spec() as int,
            ),
            old(self).len_spec() + n >= old(self).size_spec() ==> final(self).head_spec()
                == final(self).tail_spec() && final(self).len_spec() == old(self).size_spec(),
            old(self).len_spec() + n < old(self).size_spec() ==> final(self).head_spec() == old(
                self,
            ).head_spec() && final(self).len_spec() == old(self).len_spec() + n,
    {
        let size = self.size;
        let t = self.tail + n;
        self.tail = if t >= size {
            t - size
        } else {
            t
        };
        if self.len >= size - n {
            self.head = self.tail;
            self.len = size;
        } else {
            self.len = self.len + n;
        }
    }
}

pub struct CircularBuffer {
    storage: Vec<u8>,
    cursor: RingCursor,
}

impl View for CircularBuffer {
    type V = Seq<u8>;

    /// The unread bytes, oldest first.
    closed spec fn view(&self) -> Seq<u8> {
        self.storage@.subrange(self.cursor.head as int, self.cursor.head + self.cursor.len)
    }
}

impl CircularBuffer {
    /// The number of bytes the buffer holds at most.
    pub closed spec fn capacity_spec(&self) -> nat {
        self.cursor.size as nat
    }

    pub closed spec fn wf(&self) -> bool {
        &&& self.cursor.wf()
        &&& self.storage@.len() == 2 * self.cursor.size
        &&& forall|i: int|
            0 <= i < self.cursor.size ==> #[trigger] self.storage@[i + self.cursor.size] == self.storage@[i]
    }

    /// An empty buffer for at least `min_size` bytes, on a host with the
    /// default allocation granularity.
    pub fn new(min_size: usize) -> (r: Result<CircularBuffer, BufferError>)
        ensures
            match r {
                Ok(b) => b.wf() && b@ == Seq::<u8>::empty() && is_realized_capacity(
                    b.capacity_spec() as int,
                    min_size as int,
                    ALLOCATION_GRANULARITY as int,
                ),
                Err(_) => forall|cap: int|
                    is_realized_capacity(cap, min_size as int, ALLOCATION_GRANULARITY as int)
                        ==> 2 * cap > usize::MAX,
            },
    {
        CircularBuffer::with_granularity(min_size, ALLOCATION_GRANULARITY)
    }

    /// An empty buffer for at least `min_size` bytes, whose capacity is the
    /// smallest power of two that is a multiple of `granularity` and at
    /// least `min_size`.
    pub fn with_granularity(min_size: usize, granularity: usize) -> (r: Result<
        CircularBuffer,
        BufferError,
    >)
        ensures
            match r {
                Ok(b) => b.wf() && b@ == Seq::<u8>::empty() && is_realized_capacity(
                    b.capacity_spec() as int,
                    min_size as int,
                    granularity as int,
                ),
                Err(_) => forall|cap: int|
                    is_realized_capacity(cap, min_size as int, granularity as int) ==> 2 * cap
                        > usize::MAX,
            },
    {
        let size = match realized_capacity(min_size, granularity) {
            Some(size) => size,
            None => return Err(BufferError::Allocation),
        };
        proof {
            let k = choose|k: nat| vstd::arithmetic::power2::pow2(k) == size;
            vstd::arithmetic::power2::lemma_pow2_pos(k);
        }
        let total = 2 * size;
        let mut storage: Vec<u8> = Vec::with_capacity(total);
        let mut i: usize = 0;
        while i < total
            invariant
                i <= total,
                storage@ == Seq::new(i as nat, |_j: int| 0u8),
            decreases total - i,
        {
            storage.push(0u8);
            i = i + 1;
        }
        let b = CircularBuffer { storage, cursor: RingCursor::new(size) };
        assert(b@ =~= Seq::<u8>::empty());
        Ok(b)
    }

    /// The unread bytes as one slice, oldest first.
    pub fn to_slice(&self) -> (r: &[u8])
        requires
            self.wf(),
        ensures
            r@ == self@,
            r@.len() <= self.capacity_spec(),
    {
        vstd::slice::slice_subrange(self.storage.as_slice(), self.cursor.head, self.cursor.head + self.cursor.len)
    }

    /// Whether the buffer holds as many bytes as it can.
    pub fn is_full(&self) -> (r: bool)
        requires
            self.wf(),
        ensures
            r == (self@.len() == self.capacity_spec()),
    {
        self.cursor.len == self.cursor.size
    }

    /// The number of unread bytes.
    pub fn len(&self) -> (r: usize)
        requires
            self.wf(),
        ensures
            r == self@.len(),
            r <= self.capacity_spec(),
    {
        self.cursor.len
    }

    /// The number of bytes the buffer holds at most.
    pub fn capacity(&self) -> (r: usize)
        requires
            self.wf(),
        ensures
            r == self.capacity_spec(),
    {
        self.cursor.size
    }

    /// Appends as much of `buffer` as the capacity allows, from its start;
    /// where the buffer overflows, the oldest bytes are dropped. Returns the
    /// number of bytes of `buffer` taken.
    pub fn write(&mut self, buffer: &[u8]) -> (r: usize)
        requires
            old(self).wf(),
        ensures
            final(self).wf(),
            final(self).capacity_spec() == old(self).capacity_spec(),
            r as int == if buffer@.len() < old(self).capacity_spec() {
                buffer@.len() as int
            } else {
                old(self).capacity_spec() as int
            },
            final(self)@ == keep_last(
                old(self)@ + buffer@.subrange(0, r as int),
                old(self).capacity_spec(),
            ),
            buffer@.len() == 0 ==> final(self)@ == old(self)@,
    {
        let size = self.cursor.size;
        let n: usize = if buffer.len() < size {
            buffer.len()
        } else {
            size
        };
        let ghost written = buffer@.subrange(0, n as int);
        let tail = self.cursor.tail;
        let ghost old_storage = self.storage@;
        let mut j: usize = 0;
        while j < n
            invariant
                self.cursor.size == size,
                self.cursor.head == old(self).cursor.head,
                self.cursor.tail == tail,
                self.cursor.len == old(self).cursor.len,
                self.storage@.len() == 2 * size,
                old_storage.len() == 2 * size,
                0 < size,
                2 * size <= usize::MAX,
                tail < size,
                n <= size,
                n <= buffer@.len(),
                written == buffer@.subrange(0, n as int),
                j <= n,
                forall|i: int|
                    0 <= i < size ==> #[trigger] self.storage@[i + size] == self.storage@[i],
                forall|i: int|
                    0 <= i < size ==> #[trigger] self.storage@[i] == if wrap(i - tail, size as int)
                        < j {
                        written[wrap(i - tail, size as int)]
                    } else {
                        old_storage[i]
                    },
            decreases n - j,
        {
            let p: usize = if tail + j >= size {
                tail + j - size
            } else {
                tail + j
            };
            let b = buffer[j];
            self.storage[p] = b;
            self.storage[p + size] = b;
            proof {
                assert forall|i: int| 0 <= i < size implies #[trigger] self.storage@[i + size]
                    == self.storage@[i] by {
                    if i != p {
                        assert(i + size != p + size);
                    }
                }
            }
            j = j + 1;
        }
        proof {
            self.lemma_commit(old(self), written, old_storage);
        }
        self.cursor.commit_write(n);
        n
    }

    /// What the window holds once the bytes `b`, no more than the capacity,
    /// are placed after it and the window is advanced over them.
    proof fn lemma_commit(
        &self,
        pre: &CircularBuffer,
        b: Seq<u8>,
        old_storage: Seq<u8>,
    )
        requires
            pre.wf(),
            old_storage == pre.storage@,
            self.cursor.size == pre.cursor.size,
            self.cursor.head == pre.cursor.head,
            self.cursor.tail == pre.cursor.tail,
            self.cursor.len == pre.cursor.len,
            self.storage@.len() == 2 * self.cursor.size,
            b.len() <= pre.cursor.size,
            forall|i: int|
                0 <= i < self.cursor.size ==> #[trigger] self.storage@[i + self.cursor.size] == self.storage@[i],
            forall|i: int|
                0 <= i < self.cursor.size ==> #[trigger] self.storage@[i] == if wrap(
                    i - self.cursor.tail,
                    self.cursor.size as int,
                ) < b.len() {
                    b[wrap(i - self.cursor.tail, self.cursor.size as int)]
                } else {
                    old_storage[i]
                },
        ensures
            ({
                let size = self.cursor.size as int;
                let n = b.len() as int;
                let new_len = if self.cursor.len + n >= size {
                    size
                } else {
                    self.cursor.len + n
                };
                let new_tail = wrap(self.cursor.tail + n, size);
                let new_head = if self.cursor.len + n >= size {
                    new_tail
                } else {
                    self.cursor.head as int
                };
                self.storage@.subrange(new_head, new_head + new_len) == keep_last(
                    pre@ + b,
                    pre.cursor.size as nat,
                )
            }),
    {
        let size = self.cursor.size as int;
        let n = b.len() as int;
        let len = self.cursor.len as int;
        let head = self.cursor.head as int;
        let tail = self.cursor.tail as int;
        let new_len = if len + n >= size {
            size
        } else {
            len + n
        };
        let new_tail = wrap(tail + n, size);
        let new_head = if len + n >= size {
            new_tail
        } else {
            head
        };
        let s = pre@ + b;
        let kept = keep_last(s, size as nat);
        let got = self.storage@.subrange(new_head, new_head + new_len);
        assert(kept.len() == new_len);
        assert forall|k: int| 0 <= k < new_len implies got[k] == kept[k] by {
            let e = len + n - new_len + k;
            let p = wrap(new_head + k, size);
            assert(got[k] == self.storage@[new_head + k]);
            if new_head + k >= size {
                assert(self.storage@[(new_head + k - size) + size] == self.storage@[new_head
                    + k - size]);
            }
            assert(self.storage@[new_head + k] == self.storage@[p]);
            assert(kept[k] == s[s.len() - new_len + k]);
            if e >= len {
                assert(wrap(p - tail, size) == e - len);
                assert(s[s.len() - new_len + k] == b[e - len]);
            } else {
                assert(wrap(p - tail, size) >= n);
                assert(s[s.len() - new_len + k] == pre@[e]);
                assert(pre@[e] == old_storage[head + e]);
                if head + e >= size {
                    assert(old_storage[(head + e - size) + size] == old_storage[head + e
                        - size]);
                }
            }
        }
        assert(got =~= kept);
    }
}

/// All the bytes of `writes`, in order.
pub open spec fn concat_all(writes: Seq<Seq<u8>>) -> Seq<u8>
    decreases writes.len(),
{
    if writes.len() == 0 {
        Seq::empty()
    } else {
        concat_all(writes.drop_last()) + writes.last()
    }
}

/// What a buffer of capacity `cap`, empty at first, holds after it took the
/// bytes of each of `writes` in turn (what `write` takes of its argument).
pub open spec fn replay(writes: Seq<Seq<u8>>, cap: nat) -> Seq<u8>
    decreases writes.len(),
{
    if writes.len() == 0 {
        Seq::empty()
    } else {
        keep_last(replay(writes.drop_last(), cap) + writes.last(), cap)
    }
}

/// Dropping the oldest bytes early or late comes to the same.
proof fn lemma_keep_last_absorbs(s: Seq<u8>, b: Seq<u8>, cap: nat)
    ensures
        keep_last(keep_last(s, cap) + b, cap) == keep_last(s + b, cap),
{
    if s.len() > cap {
        let lhs = keep_last(keep_last(s, cap) + b, cap);
        let rhs = keep_last(s + b, cap);
        assert(lhs.len() == rhs.len());
        assert forall|k: int| 0 <= k < lhs.len() implies lhs[k] == rhs[k] by {}
        assert(lhs =~= rhs);
    }
}

/// Bytes written into an empty buffer that has room for them all are read
/// back exactly as written.
pub proof fn lemma_write_into_empty(b: Seq<u8>, cap: nat)
    requires
        b.len() <= cap,
    ensures
        keep_last(Seq::<u8>::empty() + b, cap) == b,
{
    assert(Seq::<u8>::empty() + b =~= b);
}

/// Overwrite-oldest: after any sequence of writes the buffer holds the last
/// `cap` bytes of everything written, and once more than `cap` bytes were
/// written in all, it is full.
pub proof fn lemma_overwrite_oldest(writes: Seq<Seq<u8>>, cap: nat)
    ensures
        replay(writes, cap) == keep_last(concat_all(writes), cap),
        concat_all(writes).len() >= cap ==> replay(writes, cap).len() == cap,
    decreases writes.len(),
{
    if writes.len() > 0 {
        lemma_overwrite_oldest(writes.drop_last(), cap);
        lemma_keep_last_absorbs(concat_all(writes.drop_last()), writes.last(), cap);
    } else {
        assert(keep_last(Seq::<u8>::empty(), cap) == Seq::<u8>::empty());
    }
}

} // verus!
