//! Validation and decoding of the chip's reply to a read request.
//!
//! A reply is seven bytes: the address byte and the register byte echo the
//! request, four bytes carry the register value least significant first, and
//! the last byte is the checksum of the six before it. A reply that echoes
//! another request points at a bus that is out of step; a reply with a wrong
//! checksum points at a corrupted line. The two are reported apart, and the
//! echoes are looked at first.

use vstd::prelude::*;
use crate::errors::TmcError;
use crate::packet::{
    calc_crc8,
    crc8,
    lemma_crc8_detects_changed_byte,
    lemma_value_bytes_round_trip,
    value_bytes,
    value_of_bytes,
    write_frame,
    write_frame_body,
};

verus! {

/// Whether the low four bits of the reply's address byte name the slave
/// that was asked.
pub open spec fn echoes_slave(slave: u8, reply: Seq<u8>) -> bool {
    reply[0] % 16 == slave % 16
}

/// Whether the low seven bits of the reply's register byte name the
/// register that was asked for.
pub open spec fn echoes_register(reg: u8, reply: Seq<u8>) -> bool {
    reply[1] % 128 == reg % 128
}

/// Whether the reply's last byte is the checksum of the six before it.
pub open spec fn checksum_holds(reply: Seq<u8>) -> bool {
    crc8(reply.subrange(0, 6)) == reply[6]
}

/// The register value that the reply carries.
pub open spec fn reply_value(reply: Seq<u8>) -> u32 {
    value_of_bytes(reply.subrange(2, 6))
}

/// What a reply to a read of `reg` on `slave` amounts to: a protocol
/// mismatch if either echo is off, else a checksum mismatch if the checksum
/// is off, else the value carried.
pub open spec fn reply_outcome(slave: u8, reg: u8, reply: Seq<u8>) -> Result<u32, TmcError>
    recommends
        reply.len() == 7,
{
    if !echoes_slave(slave, reply) {
        Err(TmcError::VerificationError)
    } else if !echoes_register(reg, reply) {
        Err(TmcError::VerificationError)
    } else if !checksum_holds(reply) {
        Err(TmcError::CrcError)
    } else {
        Ok(reply_value(reply))
    }
}

/// Validate a reply to a read of `reg` on `slave` and decode its value.
///
/// The slave echo is checked first, then the register echo, then the
/// checksum; the first check that fails decides the error.
pub fn check_reply(slave: u8, reg: u8, reply: &[u8; 7]) -> (outcome: Result<u32, TmcError>)
    ensures
        outcome == reply_outcome(slave, reg, reply@),
        !(echoes_slave(slave, reply@) && echoes_register(reg, reply@)) ==> outcome is Err
            && outcome->Err_0 == TmcError::VerificationError,
        echoes_slave(slave, reply@) && echoes_register(reg, reply@) && !checksum_holds(reply@)
            ==> outcome is Err && outcome->Err_0 == TmcError::CrcError,
        echoes_slave(slave, reply@) && echoes_register(reg, reply@) && checksum_holds(reply@)
            ==> outcome is Ok && outcome->Ok_0 == reply_value(reply@),
{
    let r0: u8 = reply[0];
    let r1: u8 = reply[1];
    proof {
        assert((r0 & 0x0F) == r0 % 16) by (bit_vector);
        assert((slave & 0x0F) == slave % 16) by (bit_vector);
        assert((r1 & 0x7F) == r1 % 128) by (bit_vector);
        assert((reg & 0x7F) == reg % 128) by (bit_vector);
    }
    if (r0 & 0x0F) != (slave & 0x0F) {
        return Err(TmcError::VerificationError);
    }
    if (r1 & 0x7F) != (reg & 0x7F) {
        return Err(TmcError::VerificationError);
    }
    let crc_calc: u8 = calc_crc8(vstd::slice::slice_subrange(reply.as_slice(), 0, 6));
    if crc_calc != reply[6] {
        return Err(TmcError::CrcError);
    }
    let d0: u32 = reply[2] as u32;
    let d1: u32 = reply[3] as u32;
    let d2: u32 = reply[4] as u32;
    let d3: u32 = reply[5] as u32;
    let val: u32 = d0 | (d1 << 8) | (d2 << 16) | (d3 << 24);
    proof {
        assert(d0 | (d1 << 8) | (d2 << 16) | (d3 << 24) == d0 + 256 * d1 + 65536 * d2 + 16777216
            * d3) by (bit_vector)
            requires
                d0 < 256,
                d1 < 256,
                d2 < 256,
                d3 < 256,
        ;
    }
    Ok(val)
}

/// A sound reply has the layout of a write frame without its reserved last
/// byte. Such a reply to a read of `reg` on `slave` passes validation and
/// decodes to the value it was made from.
pub proof fn lemma_sound_reply_decodes(slave: u8, reg: u8, value: u32)
    ensures
        write_frame(slave, reg, value).take(7).len() == 7,
        reply_outcome(slave, reg, write_frame(slave, reg, value).take(7)) == Ok::<u32, TmcError>(
            value,
        ),
{
    let reply = write_frame(slave, reg, value).take(7);
    let body = write_frame_body(slave, reg, value);
    lemma_value_bytes_round_trip(value);
    assert(reply.subrange(0, 6) == body);
    assert(reply.subrange(2, 6) == value_bytes(value));
}

/// A reply that passed validation no longer passes once one of its value
/// bytes is replaced by another byte and the checksum byte is left as it
/// was: the echoes still match, so the failure is a checksum mismatch.
pub proof fn lemma_changed_value_byte_fails_checksum(
    slave: u8,
    reg: u8,
    reply: Seq<u8>,
    index: int,
    byte: u8,
)
    requires
        reply.len() == 7,
        reply_outcome(slave, reg, reply) is Ok,
        2 <= index < 6,
        byte != reply[index],
    ensures
        reply_outcome(slave, reg, reply.update(index, byte)) is Err,
        reply_outcome(slave, reg, reply.update(index, byte))->Err_0 == TmcError::CrcError,
{
    let changed = reply.update(index, byte);
    assert(changed.subrange(0, 6) == reply.subrange(0, 6).update(index, byte));
    lemma_crc8_detects_changed_byte(reply.subrange(0, 6), index, byte);
}

/// A reply that passed validation fails with a checksum mismatch once any
/// single bit of any of its value bytes is flipped and the checksum byte is
/// left as it was.
pub proof fn lemma_flipped_value_bit_fails_checksum(
    slave: u8,
    reg: u8,
    reply: Seq<u8>,
    index: int,
    bit: u8,
)
    requires
        reply.len() == 7,
        reply_outcome(slave, reg, reply) is Ok,
        2 <= index < 6,
        bit < 8,
    ensures
        reply_outcome(slave, reg, reply.update(index, reply[index] ^ (1u8 << bit))) is Err,
        reply_outcome(slave, reg, reply.update(index, reply[index] ^ (1u8 << bit)))->Err_0
            == TmcError::CrcError,
{
    let byte = reply[index];
    assert(byte ^ (1u8 << bit) != byte) by (bit_vector)
        requires
            bit < 8,
    ;
    lemma_changed_value_byte_fails_checksum(slave, reg, reply, index, byte ^ (1u8 << bit));
}

} // verus!
