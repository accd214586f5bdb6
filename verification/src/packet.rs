//! Frame layouts and the frame checksum.
//!
//! Every frame starts with an address byte whose high nibble is the fixed
//! sync pattern and whose low nibble selects the chip, followed by a register
//! byte whose top bit tells a read request from a write. Register values
//! travel least significant byte first. The checksum covers every byte of
//! the frame that precedes it.

use vstd::prelude::*;

verus! {

/// The sync pattern that fills the high nibble of every address byte.
pub const SYNC_NIBBLE: u8 = 0x05;

/// The feedback constant of the checksum register, which shifts towards its
/// least significant bit: it is folded into the register whenever a set bit
/// leaves it.
pub const CRC8_POLYNOMIAL: u8 = 0x8C;

/// The flag in the register byte that marks a read request.
pub const READ_FLAG: u8 = 0x80;

/// One shift of the checksum register: the lowest bit leaves, and if it was
/// set the feedback constant is folded into what remains.
pub open spec fn crc8_shift(acc: u8) -> u8 {
    if acc & 1 == 1 {
        (acc >> 1) ^ 0x8C
    } else {
        acc >> 1
    }
}

/// `n` consecutive shifts of the checksum register.
pub open spec fn crc8_shifts(acc: u8, n: nat) -> u8
    decreases n,
{
    if n == 0 {
        acc
    } else {
        crc8_shift(crc8_shifts(acc, (n - 1) as nat))
    }
}

/// The checksum register after one more byte: the byte is folded into the
/// register, which is then shifted once per bit.
pub open spec fn crc8_absorb(acc: u8, byte: u8) -> u8 {
    crc8_shifts(acc ^ byte, 8)
}

/// The checksum of a byte sequence: starting from zero, every byte is
/// absorbed in order, and the register is the result as it stands.
pub open spec fn crc8(bytes: Seq<u8>) -> u8
    decreases bytes.len(),
{
    if bytes.len() == 0 {
        0
    } else {
        crc8_absorb(crc8(bytes.drop_last()), bytes.last())
    }
}

/// Calculate the 8-bit CRC for TMC2209 packets.
///
/// The register is advanced bit by bit, mixing in one bit of the current
/// byte at each shift, which amounts to absorbing the whole byte at once.
pub fn calc_crc8(bytes: &[u8]) -> (crc: u8)
    ensures
        crc == crc8(bytes@),
{
    let mut crc: u8 = 0;
    let mut i: usize = 0;
    while i < bytes.len()
        invariant
            i <= bytes.len(),
            crc == crc8(bytes@.take(i as int)),
        decreases bytes.len() - i,
    {
        let byte: u8 = bytes[i];
        let ghost start: u8 = crc;
        let mut current: u8 = byte;
        let mut k: u32 = 0;
        proof {
            assert(0xFFu32 >> 0u32 == 0xFF) by (bit_vector);
        }
        while k < 8
            invariant
                k <= 8,
                crc ^ current == crc8_shifts(start ^ byte, k as nat),
                current <= 0xFFu32 >> k,
            decreases 8 - k,
        {
            let mix: u8 = (crc ^ current) & 0x01;
            let ghost folded: u8 = crc ^ current;
            let ghost prev_crc: u8 = crc;
            let ghost prev_cur: u8 = current;
            crc = crc >> 1;
            if mix != 0 {
                crc = crc ^ CRC8_POLYNOMIAL;
            }
            current = current >> 1;
            proof {
                assert(crc ^ current == crc8_shift(folded)) by (bit_vector)
                    requires
                        folded == prev_crc ^ prev_cur,
                        mix == (prev_crc ^ prev_cur) & 0x01,
                        crc == (if mix != 0 { (prev_crc >> 1) ^ 0x8C } else { prev_crc >> 1 }),
                        current == prev_cur >> 1,
                ;
                let next_k: u32 = (k + 1) as u32;
                assert(current <= 0xFFu32 >> next_k) by (bit_vector)
                    requires
                        prev_cur <= 0xFFu32 >> k,
                        k < 8,
                        next_k == k + 1,
                        current == prev_cur >> 1,
                ;
            }
            k = k + 1;
        }
        proof {
            assert(0xFFu32 >> 8u32 == 0) by (bit_vector);
            assert(crc ^ 0u8 == crc) by (bit_vector);
            let next = bytes@.take(i as int + 1);
            assert(next.drop_last() == bytes@.take(i as int));
            assert(next.last() == byte);
        }
        i = i + 1;
    }
    proof {
        assert(bytes@.take(i as int) == bytes@);
    }
    crc
}

/// The first byte of every frame: the sync pattern above the low four bits
/// of the slave address.
pub open spec fn address_byte(slave: u8) -> u8 {
    (0x50 + slave % 16) as u8
}

/// The register byte of a write: the low seven bits of the register
/// address, with the direction bit clear.
pub open spec fn write_register_byte(reg: u8) -> u8 {
    reg % 128
}

/// The register byte of a read request: the low seven bits of the register
/// address, with the direction bit set.
pub open spec fn read_register_byte(reg: u8) -> u8 {
    (128 + reg % 128) as u8
}

/// The four bytes of a register value, least significant first.
pub open spec fn value_bytes(value: u32) -> Seq<u8> {
    seq![
        (value % 256) as u8,
        (value / 256 % 256) as u8,
        (value / 65536 % 256) as u8,
        (value / 16777216) as u8,
    ]
}

/// The register value that four bytes stand for, least significant first.
pub open spec fn value_of_bytes(bytes: Seq<u8>) -> u32
    recommends
        bytes.len() == 4,
{
    (bytes[0] + 256 * bytes[1] + 65536 * bytes[2] + 16777216 * bytes[3]) as u32
}

/// Four bytes stand for the value whose bytes they are: what is sent least
/// significant byte first is read back unchanged.
pub proof fn lemma_value_bytes_round_trip(value: u32)
    ensures
        value_bytes(value).len() == 4,
        value_of_bytes(value_bytes(value)) == value,
{
}

/// The six bytes of a write frame that its checksum covers.
pub open spec fn write_frame_body(slave: u8, reg: u8, value: u32) -> Seq<u8> {
    seq![address_byte(slave), write_register_byte(reg)] + value_bytes(value)
}

/// The eight bytes of a write frame: the body, its checksum, and a reserved
/// zero.
pub open spec fn write_frame(slave: u8, reg: u8, value: u32) -> Seq<u8> {
    let body = write_frame_body(slave, reg, value);
    body.push(crc8(body)).push(0)
}

/// The two bytes of a read request that its checksum covers.
pub open spec fn read_request_body(slave: u8, reg: u8) -> Seq<u8> {
    seq![address_byte(slave), read_register_byte(reg)]
}

/// The four bytes of a read request: the body, its checksum, and a reserved
/// zero.
pub open spec fn read_request_frame(slave: u8, reg: u8) -> Seq<u8> {
    let body = read_request_body(slave, reg);
    body.push(crc8(body)).push(0)
}

/// Build an 8-byte write packet for a 32-bit register write.
///
/// Layout: `[address, register, data0, data1, data2, data3, crc, 0]`. The
/// slave address and the register address are cut to four and seven bits;
/// no input is rejected.
pub fn build_write_packet(slave: u8, reg_addr: u8, value: u32) -> (packet: [u8; 8])
    ensures
        packet@ == write_frame(slave, reg_addr, value),
{
    proof {
        assert((0x05u8 << 4) | (slave & 0x0F) == 0x50 + slave % 16) by (bit_vector);
        assert(reg_addr & 0x7F == reg_addr % 128) by (bit_vector);
        assert(value & 0xFF == value % 256) by (bit_vector);
        assert((value >> 8) & 0xFF == value / 256 % 256) by (bit_vector);
        assert((value >> 16) & 0xFF == value / 65536 % 256) by (bit_vector);
        assert((value >> 24) & 0xFF == value / 16777216) by (bit_vector);
    }
    let adr_byte: u8 = (SYNC_NIBBLE << 4) | (slave & 0x0F);
    let reg_byte: u8 = reg_addr & 0x7F;
    let d0: u8 = (value & 0xFF) as u8;
    let d1: u8 = ((value >> 8) & 0xFF) as u8;
    let d2: u8 = ((value >> 16) & 0xFF) as u8;
    let d3: u8 = ((value >> 24) & 0xFF) as u8;
    let mut packet: [u8; 8] = [adr_byte, reg_byte, d0, d1, d2, d3, 0, 0];
    let crc: u8 = calc_crc8(vstd::slice::slice_subrange(packet.as_slice(), 0, 6));
    proof {
        assert(packet@.subrange(0, 6) == write_frame_body(slave, reg_addr, value));
    }
    packet[6] = crc;
    packet
}

/// Build a 4-byte read packet to request data from a TMC2209 register.
///
/// Layout: `[address, register | 0x80, crc, 0]`, with the addresses cut as
/// in a write.
pub fn build_read_packet(slave: u8, reg_addr: u8) -> (packet: [u8; 4])
    ensures
        packet@ == read_request_frame(slave, reg_addr),
{
    proof {
        assert((0x05u8 << 4) | (slave & 0x0F) == 0x50 + slave % 16) by (bit_vector);
        assert((reg_addr & 0x7F) | 0x80 == 128 + reg_addr % 128) by (bit_vector);
    }
    let adr_byte: u8 = (SYNC_NIBBLE << 4) | (slave & 0x0F);
    let reg_byte: u8 = (reg_addr & 0x7F) | READ_FLAG;
    let mut packet: [u8; 4] = [adr_byte, reg_byte, 0, 0];
    let crc: u8 = calc_crc8(vstd::slice::slice_subrange(packet.as_slice(), 0, 2));
    proof {
        assert(packet@.subrange(0, 2) == read_request_body(slave, reg_addr));
    }
    packet[2] = crc;
    packet
}

/// The checksum byte of a write frame is the checksum of the six bytes
/// before it, so recomputing it over a frame as built reproduces it.
pub proof fn lemma_write_frame_checksum(slave: u8, reg: u8, value: u32)
    ensures
        write_frame(slave, reg, value).len() == 8,
        write_frame(slave, reg, value)[7] == 0,
        crc8(write_frame(slave, reg, value).subrange(0, 6)) == write_frame(slave, reg, value)[6],
{
    let body = write_frame_body(slave, reg, value);
    assert(write_frame(slave, reg, value).subrange(0, 6) == body);
}

/// The checksum byte of a read request is the checksum of the two bytes
/// before it, so recomputing it over a request as built reproduces it.
pub proof fn lemma_read_request_checksum(slave: u8, reg: u8)
    ensures
        read_request_frame(slave, reg).len() == 4,
        read_request_frame(slave, reg)[3] == 0,
        crc8(read_request_frame(slave, reg).subrange(0, 2)) == read_request_frame(slave, reg)[2],
{
    let body = read_request_body(slave, reg);
    assert(read_request_frame(slave, reg).subrange(0, 2) == body);
}

/// Shifting the checksum register loses nothing: two registers that differ
/// still differ after any number of shifts.
pub proof fn lemma_crc8_shifts_injective(a: u8, b: u8, n: nat)
    requires
        a != b,
    ensures
        crc8_shifts(a, n) != crc8_shifts(b, n),
    decreases n,
{
    if n > 0 {
        lemma_crc8_shifts_injective(a, b, (n - 1) as nat);
        let x = crc8_shifts(a, (n - 1) as nat);
        let y = crc8_shifts(b, (n - 1) as nat);
        assert(crc8_shift(x) != crc8_shift(y)) by (bit_vector)
            requires
                x != y,
        ;
    }
}

/// The checksum tells any two sequences apart that differ in exactly one
/// byte, wherever that byte stands.
pub proof fn lemma_crc8_detects_changed_byte(bytes: Seq<u8>, index: int, byte: u8)
    requires
        0 <= index < bytes.len(),
        byte != bytes[index],
    ensures
        crc8(bytes.update(index, byte)) != crc8(bytes),
    decreases bytes.len(),
{
    let changed = bytes.update(index, byte);
    let last = bytes.last();
    if index == bytes.len() - 1 {
        assert(changed.drop_last() == bytes.drop_last());
        let acc = crc8(bytes.drop_last());
        assert(acc ^ byte != acc ^ last) by (bit_vector)
            requires
                byte != last,
        ;
        lemma_crc8_shifts_injective(acc ^ byte, acc ^ last, 8);
    } else {
        assert(changed.drop_last() == bytes.drop_last().update(index, byte));
        lemma_crc8_detects_changed_byte(bytes.drop_last(), index, byte);
        let a = crc8(changed.drop_last());
        let b = crc8(bytes.drop_last());
        assert(a ^ last != b ^ last) by (bit_vector)
            requires
                a != b,
        ;
        lemma_crc8_shifts_injective(a ^ last, b ^ last, 8);
    }
}

} // verus!
