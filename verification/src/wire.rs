//! The 35-bit data register of the JTAG debug port: three low bits that carry
//! the request on the way in and the acknowledgement on the way out, and 32
//! bits of data above them, shifted as five little-endian bytes.

use vstd::prelude::*;

verus! {

/// Length in bits of the DPACC and APACC data registers.
pub const DR_BITS: usize = 35;

/// Number of bits of the fifth byte of a scan that belong to the register.
pub const DR_TAIL_BITS: usize = 3;

/// The target has not finished the previous transaction; the request was dropped.
pub const ACK_WAIT: u8 = 1;

/// The request was accepted.
pub const ACK_OK: u8 = 2;

/// A sticky error flag is set in CTRL/STAT.
pub const ACK_FAULT: u8 = 4;

/// The register value that asks for a write of `data` to register `reg` of
/// the selected bank. Only the two low bits of `reg` reach the wire.
pub open spec fn write_word(reg: u8, data: u32) -> nat {
    (data * 8 + (reg % 4) * 2) as nat
}

/// The register value that asks for a read of register `reg` of the selected bank.
pub open spec fn read_word(reg: u8) -> nat {
    ((reg % 4) * 2 + 1) as nat
}

/// The five bytes of `word`, least significant first.
pub open spec fn le_bytes(word: nat) -> Seq<u8> {
    seq![
        (word % 256) as u8,
        (word / 0x100 % 256) as u8,
        (word / 0x1_0000 % 256) as u8,
        (word / 0x100_0000 % 256) as u8,
        (word / 0x1_0000_0000 % 256) as u8,
    ]
}

/// The number that five bytes spell, least significant byte first.
pub open spec fn le_word(scan: Seq<u8>) -> nat
    recommends
        scan.len() == 5,
{
    (scan[0] + scan[1] * 0x100 + scan[2] * 0x1_0000 + scan[3] * 0x100_0000 + scan[4]
        * 0x1_0000_0000) as nat
}

/// The acknowledgement in a scan that came out of the register: its bits 2..0.
pub open spec fn scan_ack(scan: Seq<u8>) -> u8
    recommends
        scan.len() == 5,
{
    (le_word(scan) % 8) as u8
}

/// The data in a scan that came out of the register: its bits 34..3.
pub open spec fn scan_data(scan: Seq<u8>) -> u32
    recommends
        scan.len() == 5,
{
    (le_word(scan) % 0x8_0000_0000 / 8) as u32
}

/// What a transaction yields once its acknowledgement is known: the data on
/// OK, the acknowledgement itself as the error code otherwise.
pub open spec fn ack_result(ack: u8, data: u32) -> Result<u32, u8> {
    if ack == ACK_OK {
        Ok(data)
    } else {
        Err(ack)
    }
}

proof fn lemma_byte_of_word(word: u64)
    by (bit_vector)
    ensures
        word & 0xff == word % 256,
        (word >> 8) & 0xff == word / 0x100 % 256,
        (word >> 16) & 0xff == word / 0x1_0000 % 256,
        (word >> 24) & 0xff == word / 0x100_0000 % 256,
        (word >> 32) & 0xff == word / 0x1_0000_0000 % 256,
{
}

proof fn lemma_pack_request(reg: u8, data: u32)
    by (bit_vector)
    ensures
        ((data as u64) << 3) | (((reg & 3) as u64) << 1) == data as u64 * 8 + (reg as u64 % 4) * 2,
        (((reg & 3) as u64) << 1) | 1 == (reg as u64 % 4) * 2 + 1,
{
}

proof fn lemma_unpack_scan(b0: u8, b1: u8, b2: u8, b3: u8, b4: u8)
    by (bit_vector)
    ensures
        ({
            let word: u64 = (b0 as u64) | ((b1 as u64) << 8) | ((b2 as u64) << 16) | ((b3 as u64)
                << 24) | ((b4 as u64) << 32);
            let sum: u64 = (b0 as u64 + b1 as u64 * 0x100 + b2 as u64 * 0x1_0000 + b3 as u64
                * 0x100_0000 + b4 as u64 * 0x1_0000_0000) as u64;
            &&& word == sum
            &&& (word & 0x7_ffff_ffff) & 7 == sum % 8
            &&& (word & 0x7_ffff_ffff) >> 3 == sum % 0x8_0000_0000 / 8
            &&& (word & 0x7_ffff_ffff) >> 3 <= 0xffff_ffff
        }),
{
}

/// Spells a register value as the five bytes that are shifted in.
fn word_bytes(word: u64) -> (out: Vec<u8>)
    ensures
        out@ == le_bytes(word as nat),
{
    proof {
        lemma_byte_of_word(word);
    }
    let mut out: Vec<u8> = Vec::with_capacity(5);
    out.push((word & 0xff) as u8);
    out.push(((word >> 8) & 0xff) as u8);
    out.push(((word >> 16) & 0xff) as u8);
    out.push(((word >> 24) & 0xff) as u8);
    out.push(((word >> 32) & 0xff) as u8);
    out
}

/// The scan that writes `data` to register `reg` of the selected bank.
pub fn encode_write(reg: u8, data: u32) -> (out: Vec<u8>)
    ensures
        out@ == le_bytes(write_word(reg, data)),
{
    proof {
        lemma_pack_request(reg, data);
    }
    let word: u64 = ((data as u64) << 3) | (((reg & 3) as u64) << 1);
    word_bytes(word)
}

/// The scan that asks for register `reg` of the selected bank.
pub fn encode_read(reg: u8) -> (out: Vec<u8>)
    ensures
        out@ == le_bytes(read_word(reg)),
{
    proof {
        lemma_pack_request(reg, 0);
    }
    let word: u64 = (((reg & 3) as u64) << 1) | 1;
    word_bytes(word)
}

/// Splits a scan that came out of the register into acknowledgement and data.
pub fn decode(scan: &[u8]) -> (out: (u8, u32))
    requires
        scan@.len() == 5,
    ensures
        out.0 == scan_ack(scan@),
        out.1 == scan_data(scan@),
{
    let b0: u8 = scan[0];
    let b1: u8 = scan[1];
    let b2: u8 = scan[2];
    let b3: u8 = scan[3];
    let b4: u8 = scan[4];
    proof {
        lemma_unpack_scan(b0, b1, b2, b3, b4);
    }
    let word: u64 = (b0 as u64) | ((b1 as u64) << 8) | ((b2 as u64) << 16) | ((b3 as u64) << 24) | (
    (b4 as u64) << 32);
    let word: u64 = word & 0x7_ffff_ffff;
    let ack: u8 = (word & 7) as u8;
    let data: u32 = (word >> 3) as u32;
    (ack, data)
}

/// What a transaction yields once its acknowledgement is known.
pub fn verdict(ack: u8, data: u32) -> (out: Result<u32, u8>)
    ensures
        out == ack_result(ack, data),
{
    if ack != ACK_OK {
        return Err(ack);
    }
    Ok(data)
}

/// Reads the outcome of a transaction off the scan that carries its
/// acknowledgement.
pub fn parse_ack(dr: Vec<u8>) -> (out: Result<u32, u8>)
    requires
        dr@.len() == 5,
    ensures
        out == ack_result(scan_ack(dr@), scan_data(dr@)),
{
    let (ack, data) = decode(dr.as_slice());
    verdict(ack, data)
}

} // verus!

verus! {

proof fn lemma_bytes_sum(word: u64)
    by (bit_vector)
    requires
        word < 0x100_0000_0000,
    ensures
        word % 256 + (word / 0x100 % 256) * 0x100 + (word / 0x1_0000 % 256) * 0x1_0000 + (word
            / 0x100_0000 % 256) * 0x100_0000 + (word / 0x1_0000_0000 % 256) * 0x1_0000_0000
            == word,
{
}

proof fn lemma_sum_bytes(b0: u8, b1: u8, b2: u8, b3: u8, b4: u8)
    by (bit_vector)
    ensures
        ({
            let sum: u64 = (b0 as u64 + b1 as u64 * 0x100 + b2 as u64 * 0x1_0000 + b3 as u64
                * 0x100_0000 + b4 as u64 * 0x1_0000_0000) as u64;
            &&& sum == b0 as u64 + b1 as u64 * 0x100 + b2 as u64 * 0x1_0000 + b3 as u64
                * 0x100_0000 + b4 as u64 * 0x1_0000_0000
            &&& sum < 0x100_0000_0000
            &&& sum % 256 == b0
            &&& sum / 0x100 % 256 == b1
            &&& sum / 0x1_0000 % 256 == b2
            &&& sum / 0x100_0000 % 256 == b3
            &&& sum / 0x1_0000_0000 % 256 == b4
        }),
{
}

/// Five bytes spell the number they were made from.
pub proof fn law_bytes_round_trip(word: nat)
    requires
        word < 0x100_0000_0000,
    ensures
        le_bytes(word).len() == 5,
        le_word(le_bytes(word)) == word,
{
    lemma_bytes_sum(word as u64);
}

/// Five bytes are made back from the number they spell.
pub proof fn law_word_round_trip(scan: Seq<u8>)
    requires
        scan.len() == 5,
    ensures
        le_word(scan) < 0x100_0000_0000,
        le_bytes(le_word(scan)) == scan,
{
    lemma_sum_bytes(scan[0], scan[1], scan[2], scan[3], scan[4]);
}

/// A write scan carries its register in bits 2..1, a clear bit 0 and its data
/// in bits 34..3: read as a scan that came out, it gives all three back.
pub proof fn law_write_round_trip(reg: u8, data: u32)
    ensures
        scan_ack(le_bytes(write_word(reg, data))) / 2 == reg % 4,
        scan_ack(le_bytes(write_word(reg, data))) % 2 == 0,
        scan_data(le_bytes(write_word(reg, data))) == data,
{
    law_bytes_round_trip(write_word(reg, data));
}

/// A read scan carries its register in bits 2..1, a set bit 0 and no data.
pub proof fn law_read_round_trip(reg: u8)
    ensures
        scan_ack(le_bytes(read_word(reg))) / 2 == reg % 4,
        scan_ack(le_bytes(read_word(reg))) % 2 == 1,
        scan_data(le_bytes(read_word(reg))) == 0,
{
}

/// The acknowledgement is bits 2..0 of the first byte, and the data does not
/// reach beyond bit 34.
pub proof fn law_ack_position(scan: Seq<u8>)
    requires
        scan.len() == 5,
    ensures
        scan_ack(scan) == scan[0] % 8,
        scan_ack(scan) < 8,
        scan_data(scan) == scan_data(scan.update(4, (scan[4] % 8) as u8)),
{
}

} // verus!
