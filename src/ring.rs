use queues::CircularBuffer;
use queues::IsQueue;
use vstd::prelude::*;

verus! {

#[verifier::external_type_specification]
#[verifier::external_body]
#[verifier::reject_recursive_types(T)]
pub struct ExCircularBuffer<T: Clone>(CircularBuffer<T>);

/// The chunks held by a ring, oldest first.
pub uninterp spec fn ring_items(q: CircularBuffer<Vec<u8>>) -> Seq<Seq<u8>>;

/// The number of chunks a ring was made to hold.
pub uninterp spec fn ring_cap(q: CircularBuffer<Vec<u8>>) -> nat;

/// Whether a ring was made without a default value, so that taking a chunk out
/// adds none back.
pub uninterp spec fn ring_plain(q: CircularBuffer<Vec<u8>>) -> bool;

/// The chunks after one push: the new chunk goes last, and the oldest one leaves
/// when the ring already held `cap` chunks or more.
pub open spec fn pushed(items: Seq<Seq<u8>>, cap: nat, chunk: Seq<u8>) -> Seq<Seq<u8>> {
    if items.len() < cap {
        items.push(chunk)
    } else {
        items.push(chunk).drop_first()
    }
}

/// Relies on `CircularBuffer::new`: an empty ring that remembers `capacity`.
#[verifier::external_body]
pub(crate) fn ring_new(capacity: usize) -> (q: CircularBuffer<Vec<u8>>)
    ensures
        ring_items(q) == Seq::<Seq<u8>>::empty(),
        ring_cap(q) == capacity,
        ring_plain(q),
{
    CircularBuffer::new(capacity)
}

/// Relies on `CircularBuffer::capacity`: the capacity given to `new`.
#[verifier::external_body]
pub(crate) fn ring_capacity(q: &CircularBuffer<Vec<u8>>) -> (r: usize)
    ensures
        r == ring_cap(*q),
{
    q.capacity()
}

/// Relies on `IsQueue::size` of `CircularBuffer`: the number of chunks held.
#[verifier::external_body]
pub(crate) fn ring_size(q: &CircularBuffer<Vec<u8>>) -> (r: usize)
    ensures
        r == ring_items(*q).len(),
{
    q.size()
}

/// Relies on `IsQueue::add` of `CircularBuffer`: it appends the chunk, then
/// removes the front one when the ring already held `capacity` chunks; it never
/// fails.
#[verifier::external_body]
pub(crate) fn ring_add(q: &mut CircularBuffer<Vec<u8>>, chunk: Vec<u8>)
    ensures
        ring_items(*final(q)) == pushed(ring_items(*old(q)), ring_cap(*old(q)), chunk@),
        ring_cap(*final(q)) == ring_cap(*old(q)),
        ring_plain(*final(q)) == ring_plain(*old(q)),
{
    let _ = q.add(chunk);
}

/// Relies on `IsQueue::remove` of `CircularBuffer` (made without a default
/// value): on a non-empty ring it takes out and returns the front chunk, on an
/// empty one it fails and changes nothing.
#[verifier::external_body]
pub(crate) fn ring_remove(q: &mut CircularBuffer<Vec<u8>>) -> (r: Option<Vec<u8>>)
    requires
        ring_plain(*old(q)),
    ensures
        ring_plain(*final(q)),
        ring_cap(*final(q)) == ring_cap(*old(q)),
        ring_items(*old(q)).len() == 0 ==> r is None && ring_items(*final(q)) == ring_items(*old(q)),
        ring_items(*old(q)).len() > 0 ==> r is Some && r->0@ == ring_items(*old(q))[0]
            && ring_items(*final(q)) == ring_items(*old(q)).drop_first(),
{
    q.remove().ok()
}

/// Pushes every chunk of `chunks`, in order, onto a ring holding `items`.
pub open spec fn pushed_all(items: Seq<Seq<u8>>, cap: nat, chunks: Seq<Seq<u8>>) -> Seq<Seq<u8>>
    decreases chunks.len(),
{
    if chunks.len() == 0 {
        items
    } else {
        pushed_all(pushed(items, cap, chunks[0]), cap, chunks.drop_first())
    }
}

/// The last `n` elements of `s`, or all of it when it is shorter.
pub open spec fn last_n(s: Seq<Seq<u8>>, n: nat) -> Seq<Seq<u8>> {
    if s.len() <= n {
        s
    } else {
        s.subrange(s.len() - n, s.len() as int)
    }
}

/// Sliding window: after any run of pushes onto a ring that holds no more than
/// its capacity, the ring holds exactly the most recent `cap` chunks of
/// everything it was given, in arrival order.
pub proof fn lemma_ring_keeps_latest(items: Seq<Seq<u8>>, cap: nat, chunks: Seq<Seq<u8>>)
    requires
        items.len() <= cap,
    ensures
        pushed_all(items, cap, chunks) == last_n(items + chunks, cap),
    decreases chunks.len(),
{
    if chunks.len() == 0 {
        assert(items + chunks =~= items);
    } else {
        let next = pushed(items, cap, chunks[0]);
        assert(next == last_n(items.push(chunks[0]), cap)) by {
            if items.len() >= cap {
                assert(items.push(chunks[0]).drop_first() =~= items.push(chunks[0]).subrange(
                    items.push(chunks[0]).len() - cap,
                    items.push(chunks[0]).len() as int,
                ));
            }
        }
        lemma_ring_keeps_latest(next, cap, chunks.drop_first());
        lemma_last_n_append(items.push(chunks[0]), cap, chunks.drop_first());
        assert(items.push(chunks[0]) + chunks.drop_first() =~= items + chunks);
    }
}

/// Taking the last `n` before appending more changes nothing once the last `n`
/// of the whole are taken.
pub proof fn lemma_last_n_append(s: Seq<Seq<u8>>, n: nat, t: Seq<Seq<u8>>)
    ensures
        last_n(last_n(s, n) + t, n) == last_n(s + t, n),
{
    if s.len() > n {
        let a = last_n(s, n) + t;
        let b = s + t;
        if a.len() <= n {
            assert(t.len() == 0);
            assert(a =~= b.subrange(b.len() - n, b.len() as int));
        } else {
            assert(a.subrange(a.len() - n, a.len() as int) =~= b.subrange(b.len() - n, b.len() as int));
        }
    }
}

/// A ring of byte chunks with a fixed capacity: a push onto a full ring drops
/// the oldest chunk.
pub struct ChunkRing {
    buf: CircularBuffer<Vec<u8>>,
}

/// Taking a chunk out of an empty ring.
#[derive(PartialEq, Eq, Structural, Debug, Clone, Copy)]
pub enum RingError {
    EmptyBuffer,
}

impl View for ChunkRing {
    type V = Seq<Seq<u8>>;

    /// The chunks held, oldest first.
    closed spec fn view(&self) -> Seq<Seq<u8>> {
        ring_items(self.buf)
    }
}

impl ChunkRing {
    /// The number of chunks the ring holds at most.
    pub closed spec fn cap(&self) -> nat {
        ring_cap(self.buf)
    }

    pub closed spec fn wf(&self) -> bool {
        ring_plain(self.buf) && ring_items(self.buf).len() <= ring_cap(self.buf)
    }

    /// A well-formed ring holds no more chunks than its capacity.
    pub proof fn lemma_len_le_cap(&self)
        requires
            self.wf(),
        ensures
            self@.len() <= self.cap(),
    {
    }

    /// An empty ring that holds at most `capacity` chunks.
    pub fn new(capacity: usize) -> (r: ChunkRing)
        ensures
            r.wf(),
            r@ == Seq::<Seq<u8>>::empty(),
            r.cap() == capacity,
    {
        ChunkRing { buf: ring_new(capacity) }
    }

    /// Adds `chunk` last, dropping the oldest chunk first when the ring is full.
    pub fn push(&mut self, chunk: Vec<u8>)
        requires
            old(self).wf(),
        ensures
            final(self).wf(),
            final(self).cap() == old(self).cap(),
            final(self)@ == pushed(old(self)@, old(self).cap(), chunk@),
    {
        ring_add(&mut self.buf, chunk);
    }

    /// Takes out the oldest chunk.
    pub fn pop(&mut self) -> (r: Result<Vec<u8>, RingError>)
        requires
            old(self).wf(),
        ensures
            final(self).wf(),
            final(self).cap() == old(self).cap(),
            old(self)@.len() == 0 ==> r == Err::<Vec<u8>, RingError>(RingError::EmptyBuffer)
                && final(self)@ == old(self)@,
            old(self)@.len() > 0 ==> r is Ok && r->Ok_0@ == old(self)@[0]
                && final(self)@ == old(self)@.drop_first(),
    {
        match ring_remove(&mut self.buf) {
            Some(chunk) => Ok(chunk),
            None => Err(RingError::EmptyBuffer),
        }
    }

    /// Whether any chunk is left.
    pub fn peek_has_more(&self) -> (r: bool)
        ensures
            r == (self@.len() > 0),
    {
        ring_size(&self.buf) > 0
    }

    pub fn len(&self) -> (r: usize)
        ensures
            r == self@.len(),
    {
        ring_size(&self.buf)
    }

    pub fn capacity(&self) -> (r: usize)
        ensures
            r == self.cap(),
    {
        ring_capacity(&self.buf)
    }

    /// Whether the ring holds as many chunks as it can.
    pub fn is_full(&self) -> (r: bool)
        requires
            self.wf(),
        ensures
            r == (self@.len() == self.cap()),
    {
        ring_size(&self.buf) == ring_capacity(&self.buf)
    }
}

} // verus!
