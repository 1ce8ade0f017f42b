//! Helpers shared by several tools: a fixed-size byte ring, rotation of a
//! vector and the splitting of a byte stream into lines.

use crate::ascii::{CARRIAGE_RETURN, NEWLINE};
use vstd::prelude::*;

verus! {

/// `position` brought back into `0..capacity` after one step past the end.
pub open spec fn wrapped(position: int, capacity: int) -> int {
    if position >= capacity {
        position - capacity
    } else {
        position
    }
}

/// A ring of bytes that remembers the most recent `capacity` insertions.
pub struct RingBuffer {
    head: usize,
    size: usize,
    capacity: usize,
    data: Vec<u8>,
}

impl View for RingBuffer {
    type V = Seq<u8>;

    /// The remembered bytes, oldest first.
    closed spec fn view(&self) -> Seq<u8> {
        Seq::new(
            self.size as nat,
            |i: int| self.data@[wrapped(self.start() + i, self.capacity as int)],
        )
    }
}

impl RingBuffer {
    /// The slot of the oldest remembered byte.
    closed spec fn start(&self) -> int {
        if self.size == self.capacity {
            self.head as int
        } else {
            0
        }
    }

    /// The representation invariant: the slots are allocated, the write
    /// position is inside them, and until the ring is full the write position
    /// equals the number of bytes held.
    pub closed spec fn wf(&self) -> bool {
        &&& self.data@.len() == self.capacity
        &&& self.size <= self.capacity
        &&& self.capacity > 0 ==> self.head < self.capacity
        &&& self.capacity == 0 ==> self.head == 0
        &&& self.size < self.capacity ==> self.head == self.size
    }

    /// The number of bytes the ring can remember.
    pub closed spec fn capacity(&self) -> nat {
        self.capacity as nat
    }

    /// The slot that the next byte is written to.
    pub closed spec fn head(&self) -> nat {
        self.head as nat
    }

    /// What a ring that holds `held` and remembers at most `capacity` bytes
    /// holds after `byte` is inserted: the oldest byte makes room once the
    /// ring is full.
    pub open spec fn pushed(held: Seq<u8>, capacity: nat, byte: u8) -> Seq<u8> {
        if held.len() < capacity {
            held.push(byte)
        } else {
            held.skip(1).push(byte)
        }
    }

    /// A well-formed ring never holds more than its capacity.
    pub proof fn lemma_bounded(&self)
        requires
            self.wf(),
        ensures
            self@.len() <= self.capacity(),
    {
    }

    /// The write position of a well-formed ring lies among its slots, and
    /// until the ring is full it is the number of bytes held.
    pub proof fn lemma_head(&self)
        requires
            self.wf(),
        ensures
            self.capacity() > 0 ==> self.head() < self.capacity(),
            self@.len() < self.capacity() ==> self.head() == self@.len(),
    {
    }

    /// An empty ring for `size` bytes.
    pub fn new(size: usize) -> (ring: RingBuffer)
        ensures
            ring.wf(),
            ring.capacity() == size,
            ring.head() == 0,
            ring@ == Seq::<u8>::empty(),
    {
        let ring = RingBuffer { head: 0, size: 0, capacity: size, data: vec![0u8; size] };
        assert(ring@ =~= Seq::<u8>::empty());
        ring
    }

    /// Remembers `byte`, and forgets the oldest byte if the ring was full.
    pub fn insert(&mut self, byte: u8)
        requires
            old(self).wf(),
            old(self).capacity() > 0,
        ensures
            final(self).wf(),
            final(self).capacity() == old(self).capacity(),
            final(self).head() == (old(self).head() + 1) % old(self).capacity(),
            final(self)@ == Self::pushed(old(self)@, old(self).capacity(), byte),
    {
        let ghost before = *self;
        if self.size < self.capacity {
            self.size = self.size + 1;
        }
        self.data.set(self.head, byte);
        assert(self.head + 1 <= self.capacity);
        assert((self.head + 1) % (self.capacity as int) == wrapped(
            self.head + 1,
            self.capacity as int,
        )) by (nonlinear_arith)
            requires
                0 < self.head + 1 <= self.capacity,
        ;
        self.head = (self.head + 1) % self.capacity;
        assert(self@ =~= Self::pushed(before@, before.capacity(), byte));
    }

    /// The remembered bytes, oldest first.
    pub fn to_vec(&self) -> (bytes: Vec<u8>)
        requires
            self.wf(),
        ensures
            bytes@ == self@,
    {
        let mut vec: Vec<u8> = Vec::with_capacity(self.size);
        let mut at: usize = if self.size == self.capacity {
            self.head
        } else {
            0
        };
        let mut i: usize = 0;
        while i < self.size
            invariant
                self.wf(),
                i <= self.size,
                vec@.len() == i,
                i < self.size ==> at == wrapped(self.start() + i, self.capacity as int),
                forall|j: int| 0 <= j < i ==> vec@[j] == self@[j],
            decreases self.size - i,
        {
            vec.push(self.data[at]);
            at = at + 1;
            if at == self.capacity {
                at = 0;
            }
            i += 1;
        }
        assert(vec@ =~= self@);
        vec
    }

    /// The remembered bytes, oldest first; the ring is used up.
    pub fn into_vec(self) -> (bytes: Vec<u8>)
        requires
            self.wf(),
        ensures
            bytes@ == self@,
    {
        let ghost held = self@;
        let mut data = self.data;
        if self.size == self.head {
            data.truncate(self.size);
        } else {
            let turn = self.size - self.head;
            let ghost len = self.capacity as int;
            assert(turn as int % len == if self.head == 0 {
                0
            } else {
                len - self.head
            }) by (nonlinear_arith)
                requires
                    turn == len - self.head,
                    0 <= self.head < len,
            ;
            rotate_vector(&mut data, turn);
        }
        assert(data@ =~= held);
        data
    }
}

/// The last `n` bytes of `bytes`, or all of them if there are fewer.
pub open spec fn last_bytes(bytes: Seq<u8>, n: nat) -> Seq<u8> {
    if bytes.len() <= n {
        bytes
    } else {
        bytes.skip(bytes.len() - n)
    }
}

/// A ring that holds the last bytes of what was inserted so far holds the
/// last bytes of it after one more insertion too.
pub proof fn lemma_last_bytes_push(bytes: Seq<u8>, n: nat, byte: u8)
    requires
        n > 0,
    ensures
        RingBuffer::pushed(last_bytes(bytes, n), n, byte) == last_bytes(bytes.push(byte), n),
{
    assert(RingBuffer::pushed(last_bytes(bytes, n), n, byte) =~= last_bytes(bytes.push(byte), n));
}

/// `values` turned to the right by `n` places: the last `n` values come
/// first.
pub open spec fn rotated<T>(values: Seq<T>, n: int) -> Seq<T> {
    values.subrange(values.len() - n, values.len() as int) + values.subrange(0, values.len() - n)
}

/// Exchanges the values at two places of a vector.
///
/// Trusted: this is `swap` of the slices of std, which exchanges the two
/// values and leaves the others; the places must lie in the vector.
#[verifier::external_body]
fn exchange<T>(vec: &mut Vec<T>, first: usize, second: usize)
    requires
        first < old(vec).len(),
        second < old(vec).len(),
    ensures
        final(vec)@ == old(vec)@.update(first as int, old(vec)@[second as int]).update(
            second as int,
            old(vec)@[first as int],
        ),
{
    vec.swap(first, second)
}

/// Reverses the values at `from..to` in place.
fn reverse_range<T>(vec: &mut Vec<T>, from: usize, to: usize)
    requires
        from <= to <= old(vec).len(),
    ensures
        final(vec)@.len() == old(vec)@.len(),
        forall|i: int| 0 <= i < from ==> final(vec)@[i] == old(vec)@[i],
        forall|i: int| from <= i < to ==> final(vec)@[i] == old(vec)@[from + to - 1 - i],
        forall|i: int| to <= i < old(vec)@.len() ==> final(vec)@[i] == old(vec)@[i],
{
    let ghost before = vec@;
    let mut low: usize = from;
    let mut high: usize = to;
    while high - low > 1
        invariant
            from <= low <= high <= to <= vec@.len(),
            low - from == to - high,
            vec@.len() == before.len(),
            forall|i: int| 0 <= i < from ==> vec@[i] == before[i],
            forall|i: int| to <= i < before.len() ==> vec@[i] == before[i],
            forall|i: int| low <= i < high ==> vec@[i] == before[i],
            forall|i: int| from <= i < low ==> vec@[i] == before[from + to - 1 - i],
            forall|i: int| high <= i < to ==> vec@[i] == before[from + to - 1 - i],
        decreases high - low,
    {
        exchange(vec, low, high - 1);
        low += 1;
        high -= 1;
    }
}

/// Turns `vec` to the right by `n` places, modulo its length.
pub fn rotate_vector<T>(vec: &mut Vec<T>, n: usize)
    requires
        old(vec).len() > 0,
    ensures
        final(vec)@ == rotated(old(vec)@, (n % old(vec).len()) as int),
{
    let ghost before = vec@;
    let len = vec.len();
    let n = n % len;
    if n == 0 {
        assert(vec@ =~= rotated(before, 0));
        return ;
    }
    reverse_range(vec, 0, len);
    reverse_range(vec, 0, n);
    reverse_range(vec, n, len);
    assert(vec@ =~= rotated(before, n as int));
}

/// The index of the first newline of `data` at or behind `from`, or the
/// length of `data` if there is none.
pub open spec fn line_break(data: Seq<u8>, from: int) -> int
    decreases data.len() - from,
{
    if from < 0 || from >= data.len() {
        data.len() as int
    } else if data[from] == NEWLINE {
        from
    } else {
        line_break(data, from + 1)
    }
}

/// A line without its terminator: a final `\n` is taken off, and then a
/// final `\r` if the `\n` was there.
pub open spec fn without_terminator(line: Seq<u8>) -> Seq<u8> {
    if line.len() > 0 && line.last() == NEWLINE {
        let cut = line.drop_last();
        if cut.len() > 0 && cut.last() == CARRIAGE_RETURN {
            cut.drop_last()
        } else {
            cut
        }
    } else {
        line
    }
}

/// The end of the line that starts at `from`: behind its newline, or the end
/// of `data`.
pub open spec fn line_end(data: Seq<u8>, from: int) -> int {
    if line_break(data, from) < data.len() {
        line_break(data, from) + 1
    } else {
        data.len() as int
    }
}

/// Takes the terminator off a line that was read up to and with its newline.
pub fn strip_terminator(line: &mut Vec<u8>)
    ensures
        final(line)@ == without_terminator(old(line)@),
{
    let len = line.len();
    if len > 0 && line[len - 1] == NEWLINE {
        line.pop();
        let len = line.len();
        if len > 0 && line[len - 1] == CARRIAGE_RETURN {
            line.pop();
        }
    }
}

/// The lines of a byte stream, one after the other.
pub struct OsLines {
    data: Vec<u8>,
    position: usize,
}

impl OsLines {
    /// The bytes that are not yet handed out.
    pub closed spec fn remaining(&self) -> Seq<u8> {
        self.data@.skip(self.position as int)
    }

    /// The reading position never leaves the data.
    pub closed spec fn wf(&self) -> bool {
        self.position <= self.data@.len()
    }

    /// The next line without its terminator, or `None` at the end of the
    /// data. A last line without a newline is a line too.
    pub fn next(&mut self) -> (line: Option<Vec<u8>>)
        requires
            old(self).wf(),
        ensures
            final(self).wf(),
            old(self).remaining().len() == 0 ==> line is None && final(self).remaining()
                == old(self).remaining(),
            old(self).remaining().len() > 0 ==> line is Some && line.unwrap()@
                == without_terminator(
                old(self).remaining().take(line_end(old(self).remaining(), 0)),
            ) && final(self).remaining() == old(self).remaining().skip(
                line_end(old(self).remaining(), 0),
            ),
    {
        if self.position >= self.data.len() {
            return None;
        }
        let ghost rest = self.remaining();
        let start = self.position;
        let mut line: Vec<u8> = Vec::new();
        let mut at: usize = start;
        while at < self.data.len() && self.data[at] != NEWLINE
            invariant
                start <= at <= self.data@.len(),
                self.position == start,
                rest == self.data@.skip(start as int),
                line@ == self.data@.subrange(start as int, at as int),
                line_break(rest, 0) == line_break(rest, at - start),
            decreases self.data@.len() - at,
        {
            line.push(self.data[at]);
            assert(self.data@.subrange(start as int, at + 1) =~= self.data@.subrange(
                start as int,
                at as int,
            ).push(self.data@[at as int]));
            assert(rest[at - start] == self.data@[at as int]);
            at += 1;
        }
        if at < self.data.len() {
            assert(rest[at - start] == self.data@[at as int]);
            line.push(NEWLINE);
            at += 1;
        }
        assert(line@ =~= rest.take(line_end(rest, 0)));
        self.position = at;
        assert(self.remaining() =~= rest.skip(line_end(rest, 0)));
        strip_terminator(&mut line);
        Some(line)
    }
}

/// Byte streams that can be read line by line.
pub trait OsLinesExt {
    /// The bytes of the stream.
    spec fn bytes(&self) -> Seq<u8>;

    /// The lines of the stream, from its start.
    fn os_lines(self) -> (lines: OsLines) where Self: Sized
        ensures
            lines.wf(),
            lines.remaining() == self.bytes(),
    ;
}

impl OsLinesExt for Vec<u8> {
    open spec fn bytes(&self) -> Seq<u8> {
        self@
    }

    fn os_lines(self) -> (lines: OsLines) {
        let lines = OsLines { data: self, position: 0 };
        assert(lines.remaining() =~= self@);
        lines
    }
}

} // verus!
