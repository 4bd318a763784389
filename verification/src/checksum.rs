//! CRC-16-CCITT: initial register 0xFFFF, polynomial 0x1021, most
//! significant bit first, no final XOR.
use vstd::prelude::*;

verus! {

/// Initial value of the checksum register.
pub const CRC_INIT: u16 = 0xFFFF;

/// The generator polynomial, without its leading term.
pub const CRC_POLY: u16 = 0x1021;

/// One shift of the register: the top bit leaves, and where it was set the
/// polynomial is added.
pub open spec fn crc_shift(reg: u16) -> u16 {
    if reg & 0x8000 != 0 {
        (reg << 1) ^ 0x1021
    } else {
        reg << 1
    }
}

/// `n` shifts of the register.
pub open spec fn crc_shift_n(reg: u16, n: nat) -> u16
    decreases n,
{
    if n == 0 {
        reg
    } else {
        crc_shift_n(crc_shift(reg), (n - 1) as nat)
    }
}

/// The register after one more byte: the byte is added to the high half,
/// then the register is shifted eight times.
pub open spec fn crc_update(crc: u16, byte: u8) -> u16 {
    crc_shift_n(crc ^ ((byte as u16) << 8), 8)
}

/// The register after `bytes`, starting from `start`.
pub open spec fn crc_fold(start: u16, bytes: Seq<u8>) -> u16
    decreases bytes.len(),
{
    if bytes.len() == 0 {
        start
    } else {
        crc_update(crc_fold(start, bytes.drop_last()), bytes.last())
    }
}

/// The checksum of a byte sequence.
pub open spec fn crc16(bytes: Seq<u8>) -> u16 {
    crc_fold(CRC_INIT, bytes)
}

/// Feeds one byte into the checksum register.
pub fn update_crc(crc: u16, byte: u8) -> (next: u16)
    ensures
        next == crc_update(crc, byte),
{
    let mut reg: u16 = crc ^ ((byte as u16) << 8);
    let mut i: u8 = 0;
    while i < 8
        invariant
            i <= 8,
            crc_shift_n(reg, (8 - i) as nat) == crc_update(crc, byte),
        decreases 8 - i,
    {
        if (reg & 0x8000) != 0 {
            reg = (reg << 1) ^ CRC_POLY;
        } else {
            reg = reg << 1;
        }
        i = i + 1;
    }
    reg
}

/// The checksum of a byte slice.
pub fn checksum(bytes: &[u8]) -> (crc: u16)
    ensures
        crc == crc16(bytes@),
{
    let mut crc: u16 = CRC_INIT;
    let mut i: usize = 0;
    while i < bytes.len()
        invariant
            i <= bytes.len(),
            crc == crc16(bytes@.take(i as int)),
        decreases bytes.len() - i,
    {
        proof {
            lemma_fold_push(CRC_INIT, bytes@.take(i as int), bytes[i as int]);
            assert(bytes@.take(i as int).push(bytes[i as int]) =~= bytes@.take(i + 1));
        }
        crc = update_crc(crc, bytes[i]);
        i = i + 1;
    }
    proof {
        assert(bytes@.take(bytes.len() as int) =~= bytes@);
    }
    crc
}

/// Appending a byte to the input is one update of the register.
pub proof fn lemma_fold_push(start: u16, bytes: Seq<u8>, byte: u8)
    ensures
        crc_fold(start, bytes.push(byte)) == crc_update(crc_fold(start, bytes), byte),
{
    let longer = bytes.push(byte);
    assert(longer.drop_last() =~= bytes);
}

/// Distinct registers stay distinct under a shift.
pub proof fn lemma_shift_injective(a: u16, b: u16)
    requires
        a != b,
    ensures
        crc_shift(a) != crc_shift(b),
{
    assert(a != b ==> (if a & 0x8000 != 0 {
        (a << 1) ^ 0x1021
    } else {
        a << 1
    }) != (if b & 0x8000 != 0 {
        (b << 1) ^ 0x1021
    } else {
        b << 1
    })) by (bit_vector);
}

/// Distinct registers stay distinct under any number of shifts.
pub proof fn lemma_shift_n_injective(a: u16, b: u16, n: nat)
    requires
        a != b,
    ensures
        crc_shift_n(a, n) != crc_shift_n(b, n),
    decreases n,
{
    if n > 0 {
        lemma_shift_injective(a, b);
        lemma_shift_n_injective(crc_shift(a), crc_shift(b), (n - 1) as nat);
    }
}

/// Distinct registers stay distinct when the same byte is fed to both.
pub proof fn lemma_update_injective_in_register(a: u16, b: u16, byte: u8)
    requires
        a != b,
    ensures
        crc_update(a, byte) != crc_update(b, byte),
{
    assert(a != b ==> a ^ ((byte as u16) << 8) != b ^ ((byte as u16) << 8)) by (bit_vector);
    lemma_shift_n_injective(a ^ ((byte as u16) << 8), b ^ ((byte as u16) << 8), 8);
}

/// Feeding distinct bytes to the same register gives distinct registers.
pub proof fn lemma_update_injective_in_byte(crc: u16, x: u8, y: u8)
    requires
        x != y,
    ensures
        crc_update(crc, x) != crc_update(crc, y),
{
    assert(x != y ==> crc ^ ((x as u16) << 8) != crc ^ ((y as u16) << 8)) by (bit_vector);
    lemma_shift_n_injective(crc ^ ((x as u16) << 8), crc ^ ((y as u16) << 8), 8);
}

/// Whether `a` and `b` have the same length and differ at index `at` only.
pub open spec fn differ_only_at(a: Seq<u8>, b: Seq<u8>, at: int) -> bool {
    &&& a.len() == b.len()
    &&& 0 <= at < a.len()
    &&& a[at] != b[at]
    &&& forall|i: int| 0 <= i < a.len() && i != at ==> a[i] == b[i]
}

/// The checksum detects every corruption that is confined to one byte, and
/// so every single flipped bit: two inputs that differ in one byte only
/// never have the same checksum, whatever the register started from.
pub proof fn lemma_one_byte_changes_checksum(start: u16, a: Seq<u8>, b: Seq<u8>, at: int)
    requires
        differ_only_at(a, b, at),
    ensures
        crc_fold(start, a) != crc_fold(start, b),
    decreases a.len(),
{
    let last = a.len() - 1;
    if at == last {
        assert(a.drop_last() =~= b.drop_last());
        lemma_update_injective_in_byte(crc_fold(start, a.drop_last()), a.last(), b.last());
    } else {
        lemma_one_byte_changes_checksum(start, a.drop_last(), b.drop_last(), at);
        lemma_update_injective_in_register(
            crc_fold(start, a.drop_last()),
            crc_fold(start, b.drop_last()),
            a.last(),
        );
    }
}

} // verus!
