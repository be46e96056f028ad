//! A bounded byte queue for streaming output, with backpressure above 80 %.
use vstd::prelude::*;

verus! {

broadcast use vstd::seq_lib::group_seq_properties;

/// The two ends of one `rtrb` ring of bytes, held together. Both ends live in
/// this value, so nothing else reads or writes the ring.
#[verifier::external_body]
pub struct ByteRing {
    producer: rtrb::Producer<u8>,
    consumer: rtrb::Consumer<u8>,
}

/// The bytes in the ring, oldest first.
pub uninterp spec fn ring_bytes(r: ByteRing) -> Seq<u8>;

/// The number of bytes the ring was made to hold.
pub uninterp spec fn ring_capacity(r: ByteRing) -> nat;

/// Calls `rtrb::RingBuffer::<u8>::new`. The contract claims an empty ring of
/// the given capacity. `Vec::with_capacity` inside refuses more than
/// `isize::MAX` bytes, and the ring's positions run up to twice the capacity,
/// hence the bound.
#[verifier::external_body]
fn ring_new(capacity: usize) -> (r: ByteRing)
    requires
        0 < capacity <= isize::MAX / 2,
    ensures
        ring_bytes(r) == Seq::<u8>::empty(),
        ring_capacity(r) == capacity,
{
    let (producer, consumer) = rtrb::RingBuffer::<u8>::new(capacity);
    ByteRing { producer, consumer }
}

/// Calls `Producer::push`. The contract claims, as the source shows, that the
/// byte is appended when the ring has room and that nothing changes otherwise.
#[verifier::external_body]
fn ring_push(r: &mut ByteRing, byte: u8) -> (ok: bool)
    ensures
        ring_capacity(*final(r)) == ring_capacity(*old(r)),
        ok == (ring_bytes(*old(r)).len() < ring_capacity(*old(r))),
        ok ==> ring_bytes(*final(r)) == ring_bytes(*old(r)).push(byte),
        !ok ==> ring_bytes(*final(r)) == ring_bytes(*old(r)),
{
    r.producer.push(byte).is_ok()
}

/// Calls `Consumer::pop`. The contract claims that the oldest byte leaves the
/// ring and is handed out, or that an empty ring gives nothing.
#[verifier::external_body]
fn ring_pop(r: &mut ByteRing) -> (b: Option<u8>)
    ensures
        ring_capacity(*final(r)) == ring_capacity(*old(r)),
        ring_bytes(*old(r)).len() > 0 ==> b == Some(ring_bytes(*old(r))[0])
            && ring_bytes(*final(r)) == ring_bytes(*old(r)).drop_first(),
        ring_bytes(*old(r)).len() == 0 ==> b is None && ring_bytes(*final(r)) == ring_bytes(*old(r)),
{
    r.consumer.pop().ok()
}

/// Calls `Producer::slots`: the free places (capacity less the bytes held).
#[verifier::external_body]
fn ring_write_slots(r: &ByteRing) -> (n: usize)
    ensures
        n == ring_capacity(*r) - ring_bytes(*r).len(),
{
    r.producer.slots()
}

/// Calls `Consumer::slots`: the number of bytes held.
#[verifier::external_body]
fn ring_read_slots(r: &ByteRing) -> (n: usize)
    ensures
        n == ring_bytes(*r).len(),
{
    r.consumer.slots()
}

/// Errors of the ring buffer.
#[derive(Debug)]
pub enum BufferError {
    /// The buffer was more than 80 % full: `used` of `capacity` bytes.
    Backpressure { used: usize, capacity: usize },
    Disconnected,
}

/// More than 80 % full.
pub open spec fn over_threshold(used: int, capacity: int) -> bool {
    5 * used > 4 * capacity
}

/// The bytes a push of `data` adds: as many as there is room for.
pub open spec fn accepted(data: Seq<u8>, room: int) -> Seq<u8> {
    if data.len() <= room { data } else { data.take(room) }
}

pub struct RingView {
    pub bytes: Seq<u8>,
    pub capacity: nat,
}

/// Lock-free, zero-copy ring buffer for streaming IPC: the producer pushes
/// raw UTF-8 bytes, the consumer pops them in the same order.
pub struct StreamingRingBuffer {
    ring: ByteRing,
    capacity: usize,
}

impl View for StreamingRingBuffer {
    type V = RingView;

    closed spec fn view(&self) -> RingView {
        RingView { bytes: ring_bytes(self.ring), capacity: self.capacity as nat }
    }
}

impl StreamingRingBuffer {
    /// The buffer holds no more than its capacity, which is never zero.
    pub closed spec fn wf(&self) -> bool {
        &&& ring_capacity(self.ring) == self.capacity
        &&& ring_bytes(self.ring).len() <= self.capacity
        &&& 0 < self.capacity <= isize::MAX / 2
    }

    /// A ring buffer of `capacity` bytes; 256 KB when `capacity` is 0.
    pub fn new(capacity: usize) -> (r: Self)
        requires
            capacity <= isize::MAX / 2,
        ensures
            r.wf(),
            r@.bytes == Seq::<u8>::empty(),
            r@.capacity == (if capacity == 0 { 262_144 } else { capacity }),
    {
        let capacity = if capacity == 0 { 262_144 } else { capacity };
        StreamingRingBuffer { ring: ring_new(capacity), capacity }
    }

    /// Writes as much of `data` as there is room for and returns the count.
    /// When the buffer is over 80 % full before the write, nothing is written
    /// and the error says how full it is.
    pub fn push_bytes(&mut self, data: &[u8]) -> (r: Result<usize, BufferError>)
        requires
            old(self).wf(),
        ensures
            final(self).wf(),
            final(self)@.capacity == old(self)@.capacity,
            over_threshold(old(self)@.bytes.len() as int, old(self)@.capacity as int) ==> r == (Err::<usize, BufferError>(BufferError::Backpressure {
                used: old(self)@.bytes.len() as usize,
                capacity: old(self)@.capacity as usize,
            })) && final(self)@ == old(self)@,
            !over_threshold(old(self)@.bytes.len() as int, old(self)@.capacity as int) ==> {
                let added = accepted(data@, old(self)@.capacity - old(self)@.bytes.len());
                &&& r == Ok::<usize, BufferError>(added.len() as usize)
                &&& final(self)@.bytes == old(self)@.bytes + added
            },
    {
        if self.is_backpressure() {
            let used = ring_read_slots(&self.ring);
            return Err(BufferError::Backpressure { used, capacity: self.capacity });
        }
        let free = ring_write_slots(&self.ring);
        let to_write = if data.len() < free { data.len() } else { free };
        let ghost start = ring_bytes(self.ring);
        let ghost added = accepted(data@, self@.capacity - start.len());
        assert(added =~= data@.take(to_write as int));
        let mut written: usize = 0;
        while written < to_write
            invariant
                written <= to_write <= data.len(),
                to_write + start.len() <= self.capacity,
                ring_capacity(self.ring) == self.capacity,
                self.capacity == old(self).capacity,
                ring_bytes(self.ring) == start + data@.take(written as int),
                0 < self.capacity <= isize::MAX / 2,
            decreases to_write - written,
        {
            let ok = ring_push(&mut self.ring, data[written]);
            assert(ok);
            assert(data@.take(written + 1) =~= data@.take(written as int).push(data@[written as int]));
            written = written + 1;
        }
        Ok(written)
    }

    /// Reads up to `buf.len()` bytes, oldest first, into the front of `buf`
    /// and returns the count.
    pub fn pop_bytes(&mut self, buf: &mut [u8]) -> (r: Result<usize, BufferError>)
        requires
            old(self).wf(),
        ensures
            final(self).wf(),
            final(self)@.capacity == old(self)@.capacity,
            ({
                let n = if old(buf)@.len() < old(self)@.bytes.len() { old(buf)@.len() } else { old(self)@.bytes.len() };
                &&& r == Ok::<usize, BufferError>(n as usize)
                &&& final(buf)@ == old(self)@.bytes.take(n as int) + old(buf)@.skip(n as int)
                &&& final(self)@.bytes == old(self)@.bytes.skip(n as int)
            }),
    {
        let available = ring_read_slots(&self.ring);
        let to_read = if buf.len() < available { buf.len() } else { available };
        let ghost start = ring_bytes(self.ring);
        let ghost obuf = buf@;
        let mut read: usize = 0;
        while read < to_read
            invariant
                read <= to_read,
                to_read <= start.len(),
                to_read <= obuf.len(),
                buf@.len() == obuf.len(),
                ring_capacity(self.ring) == self.capacity,
                self.capacity == old(self).capacity,
                ring_bytes(self.ring) == start.skip(read as int),
                buf@ == start.take(read as int) + obuf.skip(read as int),
                start.len() <= self.capacity,
                0 < self.capacity <= isize::MAX / 2,
            decreases to_read - read,
        {
            let b = ring_pop(&mut self.ring);
            match b {
                Some(byte) => {
                    buf[read] = byte;
                    assert(start.skip(read as int)[0] == start[read as int]);
                    assert(start.skip(read as int).drop_first() =~= start.skip(read + 1));
                    assert(buf@ =~= start.take(read + 1) + obuf.skip(read + 1));
                },
                None => {
                    assert(false);
                },
            }
            read = read + 1;
        }
        Ok(read)
    }

    /// Drains every byte the buffer holds, oldest first.
    pub fn pop_available(&mut self) -> (r: Result<Vec<u8>, BufferError>)
        requires
            old(self).wf(),
        ensures
            final(self).wf(),
            final(self)@.capacity == old(self)@.capacity,
            final(self)@.bytes == Seq::<u8>::empty(),
            r matches Ok(v) && v@ == old(self)@.bytes,
    {
        let available = ring_read_slots(&self.ring);
        let ghost start = ring_bytes(self.ring);
        let mut out: Vec<u8> = Vec::new();
        let mut k: usize = 0;
        while k < available
            invariant
                k <= available == start.len(),
                ring_capacity(self.ring) == self.capacity,
                self.capacity == old(self).capacity,
                ring_bytes(self.ring) == start.skip(k as int),
                out@ == start.take(k as int),
                start.len() <= self.capacity,
                0 < self.capacity <= isize::MAX / 2,
            decreases available - k,
        {
            match ring_pop(&mut self.ring) {
                Some(byte) => {
                    out.push(byte);
                    assert(start.skip(k as int)[0] == start[k as int]);
                    assert(start.skip(k as int).drop_first() =~= start.skip(k + 1));
                    assert(out@ =~= start.take(k + 1));
                },
                None => {
                    assert(false);
                },
            }
            k = k + 1;
        }
        assert(start.skip(k as int) =~= Seq::<u8>::empty());
        assert(start.take(k as int) =~= start);
        Ok(out)
    }

    /// More than 80 % full.
    pub fn is_backpressure(&self) -> (r: bool)
        requires
            self.wf(),
        ensures
            r == over_threshold(self@.bytes.len() as int, self@.capacity as int),
    {
        let used = ring_read_slots(&self.ring);
        (used as u128) * 5 > (self.capacity as u128) * 4
    }

    /// Total capacity in bytes.
    pub fn capacity(&self) -> (r: usize)
        ensures
            r == self@.capacity,
    {
        self.capacity
    }

    /// Bytes available for the consumer to read.
    pub fn available_read(&self) -> (r: usize)
        ensures
            r == self@.bytes.len(),
    {
        ring_read_slots(&self.ring)
    }

    /// Bytes available for the producer to write.
    pub fn available_write(&self) -> (r: usize)
        requires
            self.wf(),
        ensures
            r == self@.capacity - self@.bytes.len(),
    {
        ring_write_slots(&self.ring)
    }
}

/// What is pushed into an empty buffer comes back out unchanged, provided it
/// fits.
pub proof fn law_push_into_empty_then_drain(data: Seq<u8>, capacity: nat)
    requires
        data.len() <= capacity,
    ensures
        Seq::<u8>::empty() + accepted(data, capacity as int) == data,
        !over_threshold(0, capacity as int),
{
    assert(Seq::<u8>::empty() + data =~= data);
}

/// Pushes keep order: two pushes that both fit add their bytes one after the
/// other.
pub proof fn law_pushes_concatenate(held: Seq<u8>, a: Seq<u8>, b: Seq<u8>, capacity: nat)
    requires
        held.len() + a.len() + b.len() <= capacity,
    ensures
        held + accepted(a, capacity - held.len()) + accepted(b, capacity - held.len() - a.len()) == held + (a + b),
{
    assert(held + a + b =~= held + (a + b));
}

} // verus!
