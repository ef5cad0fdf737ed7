//! CRC-16/XMODEM: polynomial 0x1021, no reflection, most significant bit first.
use vstd::prelude::*;

verus! {

/// The generator polynomial of CRC-16/XMODEM.
pub const CRC16_POLY: u16 = 0x1021;

/// One bit step of the register: shift left, folding in the polynomial when
/// the bit shifted out was set.
pub open spec fn crc_shift(crc: u16) -> u16 {
    if crc & 0x8000u16 != 0 {
        ((crc << 1u16) ^ 0x1021u16) as u16
    } else {
        (crc << 1u16) as u16
    }
}

/// `n` bit steps of the register.
pub open spec fn crc_shift_n(crc: u16, n: nat) -> u16
    decreases n,
{
    if n == 0 {
        crc
    } else {
        crc_shift_n(crc_shift(crc), (n - 1) as nat)
    }
}

/// The byte that stands for a character: its code point truncated to eight bits.
pub open spec fn char_byte(c: char) -> u8 {
    ((c as u32) % 256) as u8
}

/// The register after one more byte.
pub open spec fn crc_byte(crc: u16, b: u8) -> u16 {
    crc_shift_n(crc ^ ((b as u16) << 8u16), 8)
}

/// CRC-16/XMODEM of `s`, starting from the register value `init`.
pub open spec fn crc16_spec(s: Seq<char>, init: u16) -> u16
    decreases s.len(),
{
    if s.len() == 0 {
        init
    } else {
        crc_byte(crc16_spec(s.drop_last(), init), char_byte(s.last()))
    }
}

fn crc_update(crc: u16, b: u8) -> (r: u16)
    ensures
        r == crc_byte(crc, b),
{
    let mut reg: u16 = crc ^ ((b as u16) << 8u16);
    let mut k: usize = 0;
    while k < 8
        invariant
            k <= 8,
            crc_shift_n(reg, (8 - k) as nat) == crc_byte(crc, b),
        decreases 8 - k,
    {
        let next: u16 = if reg & 0x8000u16 != 0 {
            (reg << 1u16) ^ CRC16_POLY
        } else {
            reg << 1u16
        };
        assert(next == crc_shift(reg));
        reg = next;
        k = k + 1;
    }
    reg
}

/// CRC-16/XMODEM of the characters of `text`, one byte per character,
/// starting from the register value `init`.
pub fn crc16_xmodem(text: &str, init: u16) -> (r: u16)
    ensures
        r == crc16_spec(text@, init),
{
    let n = text.unicode_len();
    let mut crc: u16 = init;
    let mut i: usize = 0;
    while i < n
        invariant
            n == text@.len(),
            i <= n,
            crc == crc16_spec(text@.subrange(0, i as int), init),
        decreases n - i,
    {
        let c = text.get_char(i);
        let code: u32 = c as u32;
        let b: u8 = (code & 0xffu32) as u8;
        assert(b == code % 256) by (bit_vector)
            requires b == (code & 0xffu32) as u8;
        let ghost prefix = text@.subrange(0, i as int);
        assert(text@.subrange(0, i + 1).drop_last() == prefix);
        crc = crc_update(crc, b);
        i = i + 1;
    }
    assert(text@.subrange(0, n as int) == text@);
    crc
}

} // verus!
