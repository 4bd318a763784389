//! The queue between the interrupt that receives bytes and the parser that
//! reads them: a ring of fixed size with one writing and one reading end.
//! A byte that arrives while the queue is full is dropped.
//!
//! The ring is `heapless::spsc::Queue`. Verus does not read that crate:
//! what this module says of `Queue::new`, `enqueue`, `dequeue`, `len` and
//! `split`, and of `Consumer::dequeue`, is taken from its source and
//! believed. Everything else here is proved from those statements.
use vstd::prelude::*;

use heapless::spsc::{Consumer, Producer, Queue};

verus! {

/// Slots of the ring. One of them always stays empty.
pub const QUEUE_SLOTS: usize = 16384;

/// Bytes that the queue can hold.
pub const QUEUE_CAPACITY: usize = 16383;

/// `heapless::spsc::Consumer`, the reading end of a split queue. Nothing
/// is known of what it holds: the writing end fills it from elsewhere.
#[verifier::external_type_specification]
#[verifier::external_body]
#[verifier::reject_recursive_types(T)]
pub struct ExConsumer<'a, T>(Consumer<'a, T>);

/// `heapless::spsc::Producer`, the writing end of a split queue.
#[verifier::external_type_specification]
#[verifier::external_body]
#[verifier::reject_recursive_types(T)]
pub struct ExProducer<'a, T>(Producer<'a, T>);

/// A queue of bytes: a `heapless::spsc::Queue<u8, QUEUE_SLOTS>`, which
/// Verus cannot look into. (The type cannot be declared to Verus as it
/// stands: its storage is bounded by a trait that the crate keeps to
/// itself.)
#[verifier::external_body]
pub struct ByteQueue {
    inner: Queue<u8, QUEUE_SLOTS>,
}

/// The bytes that a queue holds, oldest first. While a queue is whole,
/// only calls on it change them; once it is split, nothing speaks of them
/// any more.
pub uninterp spec fn queued(queue: ByteQueue) -> Seq<u8>;

impl View for ByteQueue {
    type V = Seq<u8>;

    open spec fn view(&self) -> Seq<u8> {
        queued(*self)
    }
}

/// `Consumer::dequeue`: takes the oldest byte off the queue, if the queue
/// holds one at that moment. Nothing is claimed of the byte.
#[verifier::external_body]
pub(crate) fn next_byte(consumer: &mut Consumer<'static, u8>) -> (byte: Option<u8>) {
    consumer.dequeue()
}

impl ByteQueue {
    /// A queue holds at most [`QUEUE_CAPACITY`] bytes: it starts empty and
    /// takes a byte only while it holds fewer.
    #[verifier::type_invariant]
    spec fn within_capacity(self) -> bool {
        queued(self).len() <= QUEUE_CAPACITY
    }

    /// `Queue::new`: a queue without items.
    #[verifier::external_body]
    fn raw_new() -> (queue: Self)
        ensures
            queued(queue) == Seq::<u8>::empty(),
    {
        ByteQueue { inner: Queue::new() }
    }

    /// `Queue::enqueue`: the item goes behind the others, unless the queue
    /// is full, that is holds one item less than it has slots; a full
    /// queue hands the item back and stays as it is.
    #[verifier::external_body]
    fn raw_enqueue(&mut self, byte: u8) -> (accepted: bool)
        ensures
            accepted == (queued(*old(self)).len() < QUEUE_CAPACITY),
            queued(*final(self)) == if accepted {
                queued(*old(self)).push(byte)
            } else {
                queued(*old(self))
            },
    {
        self.inner.enqueue(byte).is_ok()
    }

    /// `Queue::dequeue`: the oldest item leaves, or `None` comes back where
    /// the queue is empty.
    #[verifier::external_body]
    fn raw_dequeue(&mut self) -> (byte: Option<u8>)
        ensures
            match byte {
                Some(b) => queued(*old(self)).len() > 0 && b == queued(*old(self))[0] && queued(
                    *final(self),
                ) == queued(*old(self)).drop_first(),
                None => queued(*old(self)).len() == 0 && queued(*final(self)) == queued(
                    *old(self),
                ),
            },
    {
        self.inner.dequeue()
    }

    /// `Queue::len`: the number of items in the queue.
    #[verifier::external_body]
    fn raw_len(&self) -> (n: usize)
        ensures
            n == queued(*self).len(),
    {
        self.inner.len()
    }

    /// `Queue::split`: the two ends of the queue, each of which can go to
    /// another context. Nothing is claimed of them.
    #[verifier::external_body]
    fn raw_split(&'static mut self) -> (ends: (Producer<'static, u8>, Consumer<'static, u8>)) {
        self.inner.split()
    }

    /// An empty queue.
    pub fn new() -> (queue: Self)
        ensures
            queue@ == Seq::<u8>::empty(),
    {
        Self::raw_new()
    }

    /// Number of bytes in the queue.
    pub fn len(&self) -> (n: usize)
        ensures
            n == self@.len(),
            n <= QUEUE_CAPACITY,
    {
        proof {
            use_type_invariant(self);
        }
        self.raw_len()
    }

    /// Puts `byte` behind the others and returns `true`, or, where the
    /// queue is full, drops it and returns `false`.
    pub fn enqueue(&mut self, byte: u8) -> (accepted: bool)
        ensures
            accepted == (old(self)@.len() < QUEUE_CAPACITY),
            final(self)@ == if accepted {
                old(self)@.push(byte)
            } else {
                old(self)@
            },
            final(self)@.len() <= QUEUE_CAPACITY,
    {
        proof {
            use_type_invariant(&*self);
        }
        self.raw_enqueue(byte)
    }

    /// Puts the bytes of `input` into the queue, from its first, until the
    /// queue is full, and returns how many went in. The others are
    /// dropped.
    pub fn enqueue_all(&mut self, input: &[u8]) -> (taken: usize)
        ensures
            final(self)@ == old(self)@ + input@.take(taken as int),
            final(self)@.len() <= QUEUE_CAPACITY,
            taken == if old(self)@.len() + input.len() <= QUEUE_CAPACITY {
                input.len() as int
            } else {
                QUEUE_CAPACITY - old(self)@.len()
            },
    {
        proof {
            use_type_invariant(&*self);
        }
        let mut taken: usize = 0;
        while taken < input.len()
            invariant
                taken <= input.len(),
                self@ == old(self)@ + input@.take(taken as int),
                self@.len() <= QUEUE_CAPACITY,
            ensures
                taken == input.len() || self@.len() == QUEUE_CAPACITY,
            decreases input.len() - taken,
        {
            if !self.enqueue(input[taken]) {
                break ;
            }
            taken = taken + 1;
        }
        taken
    }

    /// Takes the oldest byte off the queue, if there is one.
    pub fn dequeue(&mut self) -> (byte: Option<u8>)
        ensures
            match byte {
                Some(b) => old(self)@.len() > 0 && b == old(self)@[0] && final(self)@ == old(
                    self,
                )@.drop_first(),
                None => old(self)@.len() == 0 && final(self)@ == old(self)@,
            },
    {
        proof {
            use_type_invariant(&*self);
        }
        self.raw_dequeue()
    }

    /// The writing end and the reading end of the queue.
    pub fn split(&'static mut self) -> (ends: (Producer<'static, u8>, Consumer<'static, u8>)) {
        self.raw_split()
    }
}

} // verus!
