//! The commands that arrive over the serial link, and their wire format:
//!
//! ```text
//! [0xAA][action: 1][length: 2, big-endian][payload: length][checksum: 2, big-endian]
//! ```
//!
//! The checksum covers action, length and payload, never the header or
//! itself.
use vstd::prelude::*;

use crate::checksum::{crc16, update_crc, lemma_fold_push, lemma_one_byte_changes_checksum,
    differ_only_at, CRC_INIT};

verus! {

/// The byte that starts every frame.
pub const HEADER: u8 = 0xAA;

/// The longest payload a frame may carry.
pub const MAX_PAYLOAD: usize = 1024;

/// Bytes of a frame before the payload: header, action, two length bytes.
pub const FRAME_PREFIX: usize = 4;

/// Bytes of a frame besides the payload: the prefix and the checksum.
pub const FRAME_OVERHEAD: usize = 6;

/// The 16-bit value of two bytes, high byte first.
pub open spec fn be16(hi: u8, lo: u8) -> u16 {
    (hi as int * 256 + lo as int) as u16
}

/// The 32-bit value of four bytes, highest byte first.
pub open spec fn be32(b0: u8, b1: u8, b2: u8, b3: u8) -> u32 {
    (b0 as int * 0x100_0000 + b1 as int * 0x1_0000 + b2 as int * 0x100 + b3 as int) as u32
}

/// The high byte of a 16-bit value.
pub open spec fn high_byte(x: u16) -> u8 {
    (x as int / 256) as u8
}

/// The low byte of a 16-bit value.
pub open spec fn low_byte(x: u16) -> u8 {
    (x as int % 256) as u8
}

pub fn read_be16(hi: u8, lo: u8) -> (x: u16)
    ensures
        x == be16(hi, lo),
        high_byte(x) == hi,
        low_byte(x) == lo,
{
    (hi as u16) * 256 + (lo as u16)
}

pub fn read_be32(b0: u8, b1: u8, b2: u8, b3: u8) -> (x: u32)
    ensures
        x == be32(b0, b1, b2, b3),
{
    (b0 as u32) * 0x100_0000 + (b1 as u32) * 0x1_0000 + (b2 as u32) * 0x100 + (b3 as u32)
}

/// Whether a payload of `length` bytes, the first of them `first`, is long
/// enough for `action`. An action outside the table, or a mode that the
/// strip does not have, is never accepted.
///
/// | action | meaning | shortest payload |
/// |---|---|---|
/// | 0x01 | on / off | 1 |
/// | 0x02 | brightness | 4 |
/// | 0x03 | mode | 1 for mode 0; 4 for modes 1 and 2; 5 for mode 3 |
/// | 0x04 | pixel run | 5 |
/// | 0x05 | phase step | 4 |
/// | 0x06 | active pixel count | 2 |
/// | 0x07 | frames per second | 1 |
pub open spec fn length_accepted(action: u8, length: int, first: u8) -> bool {
    if action == 0x01 {
        length >= 1
    } else if action == 0x02 {
        length >= 4
    } else if action == 0x03 {
        length >= 1 && if first == 0x00 {
            true
        } else if first == 0x01 || first == 0x02 {
            length >= 4
        } else if first == 0x03 {
            length >= 5
        } else {
            false
        }
    } else if action == 0x04 {
        length >= 5
    } else if action == 0x05 {
        length >= 4
    } else if action == 0x06 {
        length >= 2
    } else if action == 0x07 {
        length >= 1
    } else {
        false
    }
}

/// One command. Of `data` only the first `length` bytes are payload.
#[derive(Debug)]
pub struct SerialCommand {
    /// Which setting the command changes.
    pub action: u8,
    /// Number of payload bytes, at most [`MAX_PAYLOAD`].
    pub length: u16,
    /// The payload, followed by bytes that mean nothing.
    pub data: [u8; MAX_PAYLOAD],
    /// The checksum that came with the command.
    pub checksum: u16,
}

/// What a command says, without the unused part of its buffer.
pub struct CommandView {
    pub action: u8,
    pub length: u16,
    pub payload: Seq<u8>,
    pub checksum: u16,
}

impl CommandView {
    /// The bytes that the checksum covers: action, length, payload.
    pub open spec fn covered(self) -> Seq<u8> {
        seq![self.action, high_byte(self.length), low_byte(self.length)] + self.payload
    }

    /// The checksum that the command should carry.
    pub open spec fn expected_checksum(self) -> u16 {
        crc16(self.covered())
    }

    /// Whether the command carries the checksum of its contents.
    pub open spec fn intact(self) -> bool {
        self.checksum == self.expected_checksum()
    }

    /// Whether the payload is long enough for the action.
    pub open spec fn long_enough(self) -> bool {
        length_accepted(self.action, self.length as int, self.payload[0])
    }

    /// Whether the payload has the length that the command states.
    pub open spec fn well_formed(self) -> bool {
        self.length <= MAX_PAYLOAD && self.payload.len() == self.length
    }

    /// The command on the wire.
    pub open spec fn frame(self) -> Seq<u8> {
        seq![HEADER] + self.covered() + seq![high_byte(self.checksum), low_byte(self.checksum)]
    }
}

impl View for SerialCommand {
    type V = CommandView;

    open spec fn view(&self) -> CommandView {
        CommandView {
            action: self.action,
            length: self.length,
            payload: self.data@.take(
                if self.length <= MAX_PAYLOAD {
                    self.length as int
                } else {
                    MAX_PAYLOAD as int
                },
            ),
            checksum: self.checksum,
        }
    }
}

impl SerialCommand {
    /// The empty command: action 0, no payload, checksum 0.
    pub fn new() -> (command: Self)
        ensures
            command.action == 0,
            command.length == 0,
            command.checksum == 0,
            forall|i: int| 0 <= i < MAX_PAYLOAD ==> command.data[i] == 0,
            command@.payload == Seq::<u8>::empty(),
    {
        SerialCommand { action: 0, length: 0, data: [0u8; MAX_PAYLOAD], checksum: 0 }
    }

    /// Number of payload bytes: `length`, held to the size of the buffer.
    pub fn payload_len(&self) -> (n: usize)
        ensures
            n == self@.payload.len(),
            n <= MAX_PAYLOAD,
            self.length <= MAX_PAYLOAD ==> n == self.length,
    {
        if self.length as usize <= MAX_PAYLOAD {
            self.length as usize
        } else {
            MAX_PAYLOAD
        }
    }

    /// The checksum of action, length (high byte first) and payload.
    pub fn calculate_checksum(&self) -> (crc: u16)
        ensures
            crc == self@.expected_checksum(),
    {
        let ghost head = seq![self.action, high_byte(self.length), low_byte(self.length)];
        let mut crc: u16 = CRC_INIT;
        crc = update_crc(crc, self.action);
        crc = update_crc(crc, (self.length / 256) as u8);
        crc = update_crc(crc, (self.length % 256) as u8);
        proof {
            let e = Seq::<u8>::empty();
            lemma_fold_push(CRC_INIT, e, self.action);
            lemma_fold_push(CRC_INIT, e.push(self.action), high_byte(self.length));
            lemma_fold_push(
                CRC_INIT,
                e.push(self.action).push(high_byte(self.length)),
                low_byte(self.length),
            );
            assert(e.push(self.action).push(high_byte(self.length)).push(low_byte(self.length))
                =~= head);
        }
        let n = self.payload_len();
        let mut i: usize = 0;
        while i < n
            invariant
                i <= n,
                n == self@.payload.len(),
                n <= MAX_PAYLOAD,
                head == seq![self.action, high_byte(self.length), low_byte(self.length)],
                crc == crc16(head + self@.payload.take(i as int)),
            decreases n - i,
        {
            proof {
                let sofar = head + self@.payload.take(i as int);
                lemma_fold_push(CRC_INIT, sofar, self.data[i as int]);
                assert(sofar.push(self.data[i as int]) =~= head + self@.payload.take(i + 1));
            }
            crc = update_crc(crc, self.data[i]);
            i = i + 1;
        }
        proof {
            assert(self@.payload.take(n as int) =~= self@.payload);
        }
        crc
    }

    /// Whether the command carries the checksum of its contents.
    pub fn verify_checksum(&self) -> (ok: bool)
        ensures
            ok == self@.intact(),
    {
        self.checksum == self.calculate_checksum()
    }

    /// Whether the action is known and the payload long enough for it.
    pub fn validate_length_with_action(&self) -> (ok: bool)
        ensures
            ok == self@.long_enough(),
    {
        let length = self.length;
        if self.action == 0x01 {
            length >= 1
        } else if self.action == 0x02 {
            length >= 4
        } else if self.action == 0x03 {
            if length < 1 {
                return false;
            }
            let mode = self.data[0];
            if mode == 0x00 {
                true
            } else if mode == 0x01 || mode == 0x02 {
                length >= 4
            } else if mode == 0x03 {
                length >= 5
            } else {
                false
            }
        } else if self.action == 0x04 {
            length >= 5
        } else if self.action == 0x05 {
            length >= 4
        } else if self.action == 0x06 {
            length >= 2
        } else if self.action == 0x07 {
            length >= 1
        } else {
            false
        }
    }
}

/// A command that carries the checksum of its contents stops doing so when
/// one byte of action, length or payload changes, whichever bits of that
/// byte flip, as long as the payload keeps its length.
pub proof fn lemma_corrupted_command_fails(good: CommandView, bad: CommandView, at: int)
    requires
        good.intact(),
        bad.checksum == good.checksum,
        differ_only_at(good.covered(), bad.covered(), at),
    ensures
        !bad.intact(),
{
    lemma_one_byte_changes_checksum(CRC_INIT, good.covered(), bad.covered(), at);
}

} // verus!
