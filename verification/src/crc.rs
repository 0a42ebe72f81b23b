//! CRC-16/XMODEM: polynomial 0x1021, initial value 0, no reflection,
//! computed over the payload bytes of a frame.

use vstd::prelude::*;

verus! {

/// `n` rounds of the CRC shift loop applied to `crc`.
pub open spec fn crc16_shift(crc: u16, n: nat) -> u16
    decreases n,
{
    if n == 0 {
        crc
    } else {
        let c = crc16_shift(crc, (n - 1) as nat);
        if c & 0x8000 == 0x8000 {
            (c << 1) ^ 0x1021
        } else {
            c << 1
        }
    }
}

/// Folding one byte into a running CRC-16/XMODEM value.
pub open spec fn crc16_step(crc: u16, b: u8) -> u16 {
    crc16_shift(crc ^ ((b as u16) << 8), 8)
}

/// CRC-16/XMODEM of a byte sequence, starting from 0.
pub open spec fn crc16(data: Seq<u8>) -> u16
    decreases data.len(),
{
    if data.len() == 0 {
        0
    } else {
        crc16_step(crc16(data.drop_last()), data.last())
    }
}

/// One byte folded into the running check value.
fn calc_byte(crc: u16, b: u8) -> (r: u16)
    ensures
        r == crc16_step(crc, b),
{
    let mut crc_new: u16 = crc ^ ((b as u16) << 8);
    for i in 0..8usize
        invariant
            crc_new == crc16_shift(crc ^ ((b as u16) << 8), i as nat),
    {
        if crc_new & 0x8000 == 0x8000 {
            crc_new = (crc_new << 1) ^ 0x1021;
        } else {
            crc_new = crc_new << 1;
        }
    }
    crc_new
}

/// CRC-16/XMODEM over all bytes of `data`.
pub fn crc16_compute(data: &Vec<u8>) -> (r: u16)
    ensures
        r == crc16(data@),
{
    let mut crc_16: u16 = 0;
    for i in 0..data.len()
        invariant
            crc_16 == crc16(data@.take(i as int)),
    {
        proof {
            assert(data@.take(i + 1).drop_last() =~= data@.take(i as int));
            assert(data@.take(i + 1).last() == data@[i as int]);
        }
        crc_16 = calc_byte(crc_16, data[i]);
    }
    proof {
        assert(data@.take(data@.len() as int) =~= data@);
    }
    crc_16
}

} // verus!
