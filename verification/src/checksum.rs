//! CRC-16/CCITT-FALSE (polynomial 0x1021, initial value 0xFFFF, no
//! reflection, no final xor), the checksum of Pix BR codes.
use vstd::prelude::*;
use vstd::utf8::encode_utf8;

verus! {

broadcast use vstd::string::group_string_axioms;

/// One step of the register: shift left, folding in the polynomial when the
/// top bit falls out.
pub open spec fn crc_shift(crc: u16) -> u16 {
    if crc & 0x8000 != 0 {
        (crc << 1u16) ^ 0x1021u16
    } else {
        crc << 1u16
    }
}

/// Eight steps of the register.
pub open spec fn crc_shift8(crc: u16) -> u16 {
    crc_shift(crc_shift(crc_shift(crc_shift(crc_shift(crc_shift(crc_shift(crc_shift(crc))))))))
}

/// The register after taking in byte `b`.
pub open spec fn crc_byte(crc: u16, b: u8) -> u16 {
    crc_shift8(crc ^ ((b as u16) << 8u16))
}

/// The register after taking in `data`, starting from `crc`.
pub open spec fn crc_update(crc: u16, data: Seq<u8>) -> u16
    decreases data.len(),
{
    if data.len() == 0 {
        crc
    } else {
        crc_byte(crc_update(crc, data.drop_last()), data.last())
    }
}

/// CRC-16/CCITT-FALSE of `data`.
pub open spec fn crc16_of(data: Seq<u8>) -> u16 {
    crc_update(0xFFFF, data)
}

/// `n` steps of the register.
spec fn crc_shifts(crc: u16, n: nat) -> u16
    decreases n,
{
    if n == 0 {
        crc
    } else {
        crc_shift(crc_shifts(crc, (n - 1) as nat))
    }
}

/// Takes byte `b` into the register `crc`.
fn crc_take_byte(crc: u16, b: u8) -> (r: u16)
    ensures
        r == crc_byte(crc, b),
{
    let start: u16 = crc ^ ((b as u16) << 8u16);
    let mut r = start;
    for k in 0..8u32
        invariant
            r == crc_shifts(start, k as nat),
    {
        r = if r & 0x8000 != 0 {
            (r << 1u16) ^ 0x1021u16
        } else {
            r << 1u16
        };
    }
    assert(crc_shifts(start, 8) == crc_shift8(start)) by {
        reveal_with_fuel(crc_shifts, 9);
    }
    r
}

/// CRC-16/CCITT-FALSE of the UTF-8 bytes of `data`.
pub fn crc16_ccitt(data: &str) -> (crc: u16)
    ensures
        crc == crc16_of(encode_utf8(data@)),
{
    let bytes = data.as_bytes();
    let n = bytes.len();
    let mut crc: u16 = 0xFFFF;
    for i in 0..n
        invariant
            n == bytes@.len(),
            bytes@ == encode_utf8(data@),
            crc == crc_update(0xFFFF, bytes@.take(i as int)),
    {
        assert(bytes@.take(i + 1).drop_last() =~= bytes@.take(i as int));
        crc = crc_take_byte(crc, bytes[i]);
    }
    assert(bytes@.take(n as int) =~= bytes@);
    crc
}

// ─── Laws ───────────────────────────────────────────────────────────────────

/// A register value whose top bit is clear shifts without the polynomial.
proof fn lemma_shift_without_top_bit(v: u16)
    requires
        v < 0x8000,
    ensures
        crc_shift(v) == v << 1u16,
{
    assert(v < 0x8000 ==> v & 0x8000 == 0) by (bit_vector);
}

/// Eight steps of a register holding a single byte move that byte up.
proof fn lemma_shift8_of_low_byte(v: u16)
    requires
        v < 0x100,
    ensures
        crc_shift8(v) == v << 8u16,
{
    assert(v < 0x100 ==> {
        &&& (v << 1u16) < 0x200 && (v << 1u16) << 1u16 == v << 2u16
        &&& (v << 2u16) < 0x400 && (v << 2u16) << 1u16 == v << 3u16
        &&& (v << 3u16) < 0x800 && (v << 3u16) << 1u16 == v << 4u16
        &&& (v << 4u16) < 0x1000 && (v << 4u16) << 1u16 == v << 5u16
        &&& (v << 5u16) < 0x2000 && (v << 5u16) << 1u16 == v << 6u16
        &&& (v << 6u16) < 0x4000 && (v << 6u16) << 1u16 == v << 7u16
        &&& (v << 7u16) < 0x8000 && (v << 7u16) << 1u16 == v << 8u16
    }) by (bit_vector);
    lemma_shift_without_top_bit(v);
    lemma_shift_without_top_bit(v << 1u16);
    lemma_shift_without_top_bit(v << 2u16);
    lemma_shift_without_top_bit(v << 3u16);
    lemma_shift_without_top_bit(v << 4u16);
    lemma_shift_without_top_bit(v << 5u16);
    lemma_shift_without_top_bit(v << 6u16);
    lemma_shift_without_top_bit(v << 7u16);
}

/// Taking in the two bytes of the register itself, high byte first, clears it.
pub proof fn lemma_crc_own_bytes_clear(c: u16)
    ensures
        crc_byte(crc_byte(c, (c >> 8u16) as u8), (c & 0xFFu16) as u8) == 0,
{
    let hi = (c >> 8u16) as u8;
    let lo = (c & 0xFFu16) as u8;
    let v = c ^ ((hi as u16) << 8u16);
    assert(v == c & 0xFFu16 && v < 0x100) by (bit_vector)
        requires
            hi == (c >> 8u16) as u8,
            v == c ^ ((hi as u16) << 8u16),
    ;
    lemma_shift8_of_low_byte(v);
    let w = (v << 8u16) ^ ((lo as u16) << 8u16);
    assert(w == 0) by (bit_vector)
        requires
            v == c & 0xFFu16,
            lo == (c & 0xFFu16) as u8,
            w == (v << 8u16) ^ ((lo as u16) << 8u16),
    ;
    assert(crc_shift(0) == 0) by (bit_vector);
}

/// A message followed by its own CRC-16, high byte first, has CRC-16 zero:
/// the check a receiver makes.
pub proof fn law_crc_of_message_and_crc_is_zero(data: Seq<u8>)
    ensures
        ({
            let c = crc16_of(data);
            crc16_of(data + seq![(c >> 8u16) as u8, (c & 0xFFu16) as u8]) == 0
        }),
{
    let c = crc16_of(data);
    let hi = (c >> 8u16) as u8;
    let lo = (c & 0xFFu16) as u8;
    let d1 = data + seq![hi];
    let d2 = data + seq![hi, lo];
    assert(d2.drop_last() =~= d1);
    assert(d1.drop_last() =~= data);
    assert(d2.last() == lo);
    assert(d1.last() == hi);
    assert(crc_update(0xFFFF, d1) == crc_byte(c, hi));
    assert(crc_update(0xFFFF, d2) == crc_byte(crc_byte(c, hi), lo));
    lemma_crc_own_bytes_clear(c);
}

/// The checksum of two messages one after the other is the checksum of the
/// second, started from that of the first.
pub proof fn law_crc_of_concatenation(crc: u16, a: Seq<u8>, b: Seq<u8>)
    ensures
        crc_update(crc, a + b) == crc_update(crc_update(crc, a), b),
    decreases b.len(),
{
    if b.len() == 0 {
        assert(a + b =~= a);
    } else {
        law_crc_of_concatenation(crc, a, b.drop_last());
        assert((a + b).drop_last() =~= a + b.drop_last());
    }
}

} // verus!
