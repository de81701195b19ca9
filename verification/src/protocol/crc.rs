//! The cyclic redundancy checks of the frame formats.
use vstd::prelude::*;

use crate::bytes_value;

verus! {

/// One step of the CRC-16 register (reflected polynomial 0xA001).
pub open spec fn crc_shift(crc: u16) -> u16 {
    if crc & 1 != 0 {
        (crc >> 1) ^ 0xA001
    } else {
        crc >> 1
    }
}

/// `n` steps of the CRC-16 register.
pub open spec fn crc_shifts(crc: u16, n: nat) -> u16
    decreases n,
{
    if n == 0 {
        crc
    } else {
        crc_shift(crc_shifts(crc, (n - 1) as nat))
    }
}

/// The CRC-16 of a sequence of bytes: the register starts at 0xFFFF, each byte is mixed
/// into its low end and followed by eight steps.
pub open spec fn crc16_of(data: Seq<u8>) -> u16
    decreases data.len(),
{
    if data.len() == 0 {
        0xFFFF
    } else {
        crc_shifts(crc16_of(data.drop_last()) ^ (data.last() as u16), 8)
    }
}

/// CRC-16 (Modbus) of the bytes.
pub fn crc16(data: &[u8]) -> (r: u16)
    ensures
        r == crc16_of(data@),
{
    let mut crc: u16 = 0xFFFF;
    for i in 0..data.len()
        invariant
            crc == crc16_of(data@.take(i as int)),
    {
        proof {
            assert(data@.take(i + 1).drop_last() =~= data@.take(i as int));
        }
        crc = crc ^ (data[i] as u16);
        let ghost start = crc;
        for k in 0..8
            invariant
                crc == crc_shifts(start, k as nat),
        {
            if crc & 1 != 0 {
                crc = (crc >> 1) ^ 0xA001;
            } else {
                crc = crc >> 1;
            }
        }
    }
    proof {
        assert(data@.take(data@.len() as int) =~= data@);
    }
    crc
}

proof fn lemma_shift_injective(a: u16, b: u16)
    by (bit_vector)
    requires
        (if a & 1 != 0 { (a >> 1) ^ 0xA001 } else { a >> 1 })
            == (if b & 1 != 0 { (b >> 1) ^ 0xA001 } else { b >> 1 }),
    ensures
        a == b,
{
}

proof fn lemma_shifts_injective(a: u16, b: u16, n: nat)
    requires
        crc_shifts(a, n) == crc_shifts(b, n),
    ensures
        a == b,
    decreases n,
{
    if n > 0 {
        lemma_shift_injective(crc_shifts(a, (n - 1) as nat), crc_shifts(b, (n - 1) as nat));
        lemma_shifts_injective(a, b, (n - 1) as nat);
    }
}

/// Messages of one length that differ in exactly one byte have different checksums: no
/// corruption that stays within a byte goes unnoticed.
pub proof fn law_crc16_detects_one_byte(a: Seq<u8>, b: Seq<u8>, at: int)
    requires
        a.len() == b.len(),
        0 <= at < a.len(),
        a[at] != b[at],
        forall|i: int| 0 <= i < a.len() && i != at ==> a[i] == b[i],
    ensures
        crc16_of(a) != crc16_of(b),
    decreases a.len(),
{
    let (ca, cb) = (crc16_of(a.drop_last()), crc16_of(b.drop_last()));
    let (x, y) = (a.last() as u16, b.last() as u16);
    if crc16_of(a) == crc16_of(b) {
        lemma_shifts_injective(ca ^ x, cb ^ y, 8);
        if at == a.len() - 1 {
            assert(a.drop_last() =~= b.drop_last());
            assert(ca ^ x == ca ^ y ==> x == y) by (bit_vector);
        } else {
            law_crc16_detects_one_byte(a.drop_last(), b.drop_last(), at);
            assert(ca ^ x == cb ^ x ==> ca == cb) by (bit_vector);
        }
    }
}

/// A register whose low byte is zero loses that byte, and nothing is mixed in.
proof fn lemma_shift_out_zeros(v: u16)
    requires
        v % 256 == 0,
    ensures
        crc_shifts(v, 8) == v / 256,
{
    let (v1, v2, v3, v4) = ((v / 2) as u16, (v / 4) as u16, (v / 8) as u16, (v / 16) as u16);
    let (v5, v6, v7) = ((v / 32) as u16, (v / 64) as u16, (v / 128) as u16);
    reveal_with_fuel(crc_shifts, 9);
    lemma_shift_even(v);
    lemma_shift_even(v1);
    lemma_shift_even(v2);
    lemma_shift_even(v3);
    lemma_shift_even(v4);
    lemma_shift_even(v5);
    lemma_shift_even(v6);
    lemma_shift_even(v7);
}

proof fn lemma_shift_even(v: u16)
    requires
        v % 2 == 0,
    ensures
        crc_shift(v) == v / 2,
{
    assert(v & 1 == v % 2) by (bit_vector);
    assert(v >> 1 == v / 2) by (bit_vector);
}

/// A message with its own checksum behind it, low byte first, has the checksum zero.
pub proof fn law_crc16_residue(data: Seq<u8>)
    ensures
        crc16_of(data + bytes_value::le_bytes(crc16_of(data) as nat, 2)) == 0,
{
    let crc = crc16_of(data);
    let low = (crc % 256) as u8;
    let high = (crc / 256) as u8;
    bytes_value::lemma_u16_bytes(crc);
    let whole = data + bytes_value::le_bytes(crc as nat, 2);
    let half = data.push(low);
    assert(whole =~= half.push(high));
    assert(whole.drop_last() =~= half);
    assert(half.drop_last() =~= data);
    let l: u16 = low as u16;
    let h: u16 = high as u16;
    assert(l == crc % 256 && h == crc / 256);
    assert((crc ^ l) % 256 == 0 && (crc ^ l) / 256 == crc / 256) by (bit_vector)
        requires
            l == crc % 256,
    ;
    lemma_shift_out_zeros(crc ^ l);
    assert(crc16_of(half) == h);
    assert(h ^ h == 0) by (bit_vector);
    lemma_shift_out_zeros(0);
}

/// The register starts with all sixteen bits set; a byte is mixed into its lower half and
/// shifted through, eight times, by one bit to the right, mixing in 0xA001 where a bit falls
/// out.
pub proof fn law_crc16_register(data: Seq<u8>, byte: u8, crc: u16)
    ensures
        crc16_of(Seq::empty()) == 0xFFFF,
        crc16_of(data.push(byte)) == crc_shifts(crc16_of(data) ^ (byte as u16), 8),
        crc % 2 == 0 ==> crc_shift(crc) == crc / 2,
        crc % 2 == 1 ==> crc_shift(crc) == ((crc / 2) as u16) ^ 0xA001,
{
    assert(data.push(byte).drop_last() =~= data);
    assert(crc & 1 == crc % 2) by (bit_vector);
    assert(crc >> 1 == crc / 2) by (bit_vector);
}

} // verus!
