//! The parser: bytes that wait to be parsed sit in an [`AssemblyBuffer`].
//! A frame is looked for at its front. Where the bytes there cannot be a
//! frame, the buffer is cut back to the next header byte and the search
//! goes on from there; where they may yet become one, the parser waits
//! for more input.
use vstd::prelude::*;

use heapless::spsc::Consumer;

use crate::command::{read_be16, SerialCommand, FRAME_PREFIX, HEADER, MAX_PAYLOAD};
use crate::framing::{classify, command_at, declared_frame_len, lemma_next_header,
    lemma_resync_under_extension, lemma_step_outcome, next_header, scan, sendable, view_of,
    Candidate};
use crate::queue::next_byte;

verus! {

/// Bytes that the assembly buffer can hold.
pub const ASSEMBLY_CAPACITY: usize = 1536;

/// Filling stops when the assembly buffer holds this many bytes. The
/// longest frame is shorter.
pub const FILL_LIMIT: usize = 1056;

/// The most bytes that one call of
/// [`SerialParser::read_buffer_into_command`] takes off the queue, so that
/// the call returns even while the other end keeps writing.
pub const DRAIN_BUDGET: usize = 16384;

/// Bytes that have arrived and have not been parsed.
pub struct AssemblyBuffer {
    bytes: [u8; ASSEMBLY_CAPACITY],
    len: usize,
}

/// What one look at the front of the buffer led to.
pub enum Step {
    /// No command yet: more input is needed.
    Wait,
    /// The front was no frame and the buffer was cut back to the next
    /// header byte: look again.
    Retry,
    /// A command, taken out of the buffer.
    Found(SerialCommand),
}

impl View for AssemblyBuffer {
    type V = Seq<u8>;

    closed spec fn view(&self) -> Seq<u8> {
        self.bytes@.take(self.len as int)
    }
}

impl AssemblyBuffer {
    #[verifier::type_invariant]
    spec fn in_bounds(self) -> bool {
        self.len <= ASSEMBLY_CAPACITY
    }

    pub fn new() -> (buffer: Self)
        ensures
            buffer@ == Seq::<u8>::empty(),
    {
        AssemblyBuffer { bytes: [0u8; ASSEMBLY_CAPACITY], len: 0 }
    }

    /// Number of buffered bytes.
    pub fn len(&self) -> (n: usize)
        ensures
            n == self@.len(),
            n <= ASSEMBLY_CAPACITY,
    {
        proof {
            use_type_invariant(self);
        }
        self.len
    }

    /// Appends a byte. The buffer must have room; filling stops long
    /// before it is full.
    pub fn push(&mut self, byte: u8)
        requires
            old(self)@.len() < ASSEMBLY_CAPACITY,
        ensures
            final(self)@ == old(self)@.push(byte),
    {
        proof {
            use_type_invariant(&*self);
        }
        self.bytes[self.len] = byte;
        self.len = self.len + 1;
    }

    /// Appends bytes of `input`, from its first, until the buffer holds
    /// [`FILL_LIMIT`] bytes, and returns how many it took.
    pub fn feed(&mut self, input: &[u8]) -> (taken: usize)
        ensures
            taken <= input.len(),
            final(self)@ == old(self)@ + input@.take(taken as int),
            taken < input.len() ==> final(self)@.len() >= FILL_LIMIT,
            final(self)@.len() <= FILL_LIMIT || taken == 0,
    {
        let mut taken: usize = 0;
        while taken < input.len() && self.len() < FILL_LIMIT
            invariant
                taken <= input.len(),
                self@ == old(self)@ + input@.take(taken as int),
                self@.len() <= FILL_LIMIT || taken == 0,
            decreases input.len() - taken,
        {
            self.push(input[taken]);
            taken = taken + 1;
        }
        taken
    }

    /// Drops the first `count` bytes.
    fn discard_front(&mut self, count: usize)
        requires
            count <= old(self)@.len(),
        ensures
            final(self)@ == old(self)@.skip(count as int),
    {
        proof {
            use_type_invariant(&*self);
        }
        let kept = self.len - count;
        let mut j: usize = 0;
        while j < kept
            invariant
                j <= kept,
                kept == self.len - count,
                self.len == old(self).len,
                self.len <= ASSEMBLY_CAPACITY,
                forall|i: int| 0 <= i < j ==> self.bytes[i] == old(self).bytes[i + count],
                forall|i: int| j <= i < ASSEMBLY_CAPACITY ==> self.bytes[i] == old(self).bytes[i],
            decreases kept - j,
        {
            self.bytes[j] = self.bytes[j + count];
            j = j + 1;
        }
        self.len = kept;
    }

    /// Cuts the buffer back to the next header byte behind its first byte,
    /// and says whether there was one. Without one the buffer is emptied.
    pub fn find_next_header_and_shift(&mut self) -> (found: bool)
        ensures
            final(self)@ == old(self)@.skip(next_header(old(self)@, 1)),
            found == (next_header(old(self)@, 1) < old(self)@.len()),
            found ==> final(self)@.len() > 0 && final(self)@[0] == HEADER,
            !found ==> final(self)@.len() == 0,
    {
        proof {
            use_type_invariant(&*self);
        }
        let mut i: usize = 1;
        while i < self.len
            invariant
                1 <= i,
                self.len <= ASSEMBLY_CAPACITY,
                *self == *old(self),
                next_header(self@, 1) == next_header(self@, i as int),
            decreases self.len - i,
        {
            if self.bytes[i] == HEADER {
                self.discard_front(i);
                return true;
            }
            i = i + 1;
        }
        self.len = 0;
        false
    }

    /// Cuts the buffer back to the next header byte and says how to go on.
    fn resync(&mut self) -> (step: Step)
        ensures
            final(self)@ == old(self)@.skip(next_header(old(self)@, 1)),
            final(self)@.len() > 0 ==> step is Retry,
            final(self)@.len() == 0 ==> step is Wait,
    {
        if self.find_next_header_and_shift() {
            Step::Retry
        } else {
            Step::Wait
        }
    }

    /// Looks at the front of the buffer once. A whole frame is taken out
    /// and returned; the beginning of one is left to wait for its end;
    /// anything else is cut away up to the next header byte.
    pub fn step(&mut self) -> (step: Step)
        ensures
            match classify(old(self)@, 0) {
                Candidate::Complete => {
                    &&& step matches Step::Found(c)
                    &&& c@ == command_at(old(self)@, 0)
                    &&& final(self)@ == old(self)@.skip(declared_frame_len(old(self)@, 0))
                },
                Candidate::Incomplete => step is Wait && final(self)@ == old(self)@,
                Candidate::Rejected => {
                    &&& final(self)@ == old(self)@.skip(next_header(old(self)@, 1))
                    &&& final(self)@.len() > 0 ==> step is Retry
                    &&& final(self)@.len() == 0 ==> step is Wait
                },
            },
    {
        proof {
            use_type_invariant(&*self);
        }
        let ghost s = self@;
        if self.len == 0 {
            return Step::Wait;
        }
        if self.bytes[0] != HEADER {
            return self.resync();
        }
        if self.len < FRAME_PREFIX {
            return Step::Wait;
        }
        let action = self.bytes[1];
        let length = read_be16(self.bytes[2], self.bytes[3]);
        if length as usize > MAX_PAYLOAD {
            return self.resync();
        }
        let frame_size = FRAME_PREFIX + length as usize + 2;
        if self.len < frame_size {
            return Step::Wait;
        }
        let mut result = SerialCommand::new();
        result.action = action;
        result.length = length;
        let mut i: usize = 0;
        while i < length as usize
            invariant
                i <= length,
                length <= MAX_PAYLOAD,
                FRAME_PREFIX + length + 2 <= self.len <= ASSEMBLY_CAPACITY,
                result.action == action,
                result.length == length,
                forall|k: int| 0 <= k < i ==> result.data[k] == self.bytes[FRAME_PREFIX + k],
            decreases length - i,
        {
            result.data[i] = self.bytes[FRAME_PREFIX + i];
            i = i + 1;
        }
        let at = FRAME_PREFIX + length as usize;
        result.checksum = read_be16(self.bytes[at], self.bytes[at + 1]);
        proof {
            assert(result@.payload =~= command_at(s, 0).payload);
        }
        if !result.validate_length_with_action() {
            return self.resync();
        }
        if !result.verify_checksum() {
            return self.resync();
        }
        self.discard_front(frame_size);
        Step::Found(result)
    }

    /// Searches the buffer for a command, without taking new input.
    pub fn take_command(&mut self) -> (command: Option<SerialCommand>)
        ensures
            view_of(command) == scan(old(self)@).command,
            final(self)@ == scan(old(self)@).rest,
            command matches Some(c) ==> sendable(c@),
    {
        loop
            invariant
                scan(self@) == scan(old(self)@),
            decreases self@.len(),
        {
            proof {
                lemma_step_outcome(self@);
                lemma_next_header(self@, 1);
            }
            match self.step() {
                Step::Wait => {
                    return None;
                },
                Step::Found(command) => {
                    return Some(command);
                },
                Step::Retry => {},
            }
        }
    }
}

/// The parser: an assembly buffer and the reading end of the queue that
/// feeds it.
pub struct SerialParser {
    buffer: AssemblyBuffer,
    consumer: Consumer<'static, u8>,
}

impl View for SerialParser {
    type V = Seq<u8>;

    /// The bytes that wait in the assembly buffer.
    closed spec fn view(&self) -> Seq<u8> {
        self.buffer@
    }
}

impl SerialParser {
    /// The reading end that the parser takes its bytes from.
    pub closed spec fn source(&self) -> Consumer<'static, u8> {
        self.consumer
    }

    /// A parser that reads from `consumer`, with nothing buffered yet.
    pub fn new(consumer: Consumer<'static, u8>) -> (parser: Self)
        ensures
            parser@ == Seq::<u8>::empty(),
            parser.source() == consumer,
    {
        SerialParser { buffer: AssemblyBuffer::new(), consumer }
    }

    /// Number of bytes that wait in the assembly buffer.
    pub fn buffered(&self) -> (n: usize)
        ensures
            n == self@.len(),
    {
        self.buffer.len()
    }

    /// Moves bytes from the queue to the assembly buffer and searches it
    /// for a command: the queue is read until it is empty or the buffer
    /// holds [`FILL_LIMIT`] bytes, the front of the buffer is looked at, and
    /// where that cut the buffer back both are done again.
    ///
    /// Whatever the queue handed over, what comes back is the outcome of
    /// the search on the bytes that waited followed by the bytes that were
    /// read, of which there are at most [`DRAIN_BUDGET`].
    pub fn read_buffer_into_command(&mut self) -> (command: Option<SerialCommand>)
        ensures
            exists|fed: Seq<u8>|
                {
                    &&& fed.len() <= DRAIN_BUDGET
                    &&& view_of(command) == (#[trigger] scan(old(self)@ + fed)).command
                    &&& final(self)@ == scan(old(self)@ + fed).rest
                },
            command matches Some(c) ==> sendable(c@),
    {
        let mut budget: usize = DRAIN_BUDGET;
        let ghost mut fed: Seq<u8> = Seq::empty();
        loop
            invariant
                fed.len() + budget == DRAIN_BUDGET,
                forall|more: Seq<u8>| #[trigger]
                    scan(old(self)@ + fed + more) == scan(self@ + more),
            decreases budget + self@.len(),
        {
            let ghost at_entry = budget + self@.len();
            while self.buffer.len() < FILL_LIMIT && budget > 0
                invariant
                    fed.len() + budget == DRAIN_BUDGET,
                    forall|more: Seq<u8>| #[trigger]
                        scan(old(self)@ + fed + more) == scan(self@ + more),
                    budget + self@.len() == at_entry,
                decreases budget,
            {
                match next_byte(&mut self.consumer) {
                    Some(byte) => {
                        let ghost before = self@;
                        let ghost fed_before = fed;
                        self.buffer.push(byte);
                        budget = budget - 1;
                        proof {
                            fed = fed.push(byte);
                            assert forall|more: Seq<u8>| #[trigger]
                                scan(old(self)@ + fed + more) == scan(self@ + more) by {
                                let longer = seq![byte] + more;
                                assert(old(self)@ + fed + more =~= old(self)@ + fed_before
                                    + longer);
                                assert(self@ + more =~= before + longer);
                            }
                        }
                    },
                    None => {
                        break ;
                    },
                }
            }
            let ghost s = self@;
            proof {
                let none = Seq::<u8>::empty();
                assert(scan(old(self)@ + fed + none) == scan(s + none));
                lemma_next_header(s, 1);
                if classify(s, 0) == Candidate::Rejected {
                    lemma_resync_under_extension(s);
                }
            }
            match self.buffer.step() {
                Step::Wait => {
                    return None;
                },
                Step::Found(command) => {
                    return Some(command);
                },
                Step::Retry => {},
            }
        }
    }
}

} // verus!
