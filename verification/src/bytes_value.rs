use vstd::prelude::*;

verus! {

/// The number that a sequence of bytes spells, most significant byte first.
pub open spec fn be_value(s: Seq<u8>) -> nat
    decreases s.len(),
{
    if s.len() == 0 {
        0
    } else {
        be_value(s.drop_last()) * 256 + s.last() as nat
    }
}

/// The `n` bytes that spell `v`, most significant byte first; what does not fit is cut off.
pub open spec fn be_bytes(v: nat, n: nat) -> Seq<u8>
    decreases n,
{
    if n == 0 {
        Seq::empty()
    } else {
        be_bytes(v / 256, (n - 1) as nat).push((v % 256) as u8)
    }
}

/// The number that a sequence of bytes spells, least significant byte first.
pub open spec fn le_value(s: Seq<u8>) -> nat
    decreases s.len(),
{
    if s.len() == 0 {
        0
    } else {
        s[0] as nat + 256 * le_value(s.skip(1))
    }
}

/// The `n` bytes that spell `v`, least significant byte first; what does not fit is cut off.
pub open spec fn le_bytes(v: nat, n: nat) -> Seq<u8>
    decreases n,
{
    if n == 0 {
        Seq::empty()
    } else {
        seq![(v % 256) as u8] + le_bytes(v / 256, (n - 1) as nat)
    }
}

/// 256 to the power of `n`.
pub open spec fn pow256(n: nat) -> nat
    decreases n,
{
    if n == 0 {
        1
    } else {
        256 * pow256((n - 1) as nat)
    }
}

/// Reading back big-endian bytes gives the number that was written, where it fits.
pub proof fn law_be_round_trip(v: nat, n: nat)
    requires
        v < pow256(n),
    ensures
        be_bytes(v, n).len() == n,
        be_value(be_bytes(v, n)) == v,
    decreases n,
{
    if n > 0 {
        law_be_round_trip(v / 256, (n - 1) as nat);
        let s = be_bytes(v, n);
        assert(s.drop_last() =~= be_bytes(v / 256, (n - 1) as nat));
    }
}

/// Reading back little-endian bytes gives the number that was written, where it fits.
pub proof fn law_le_round_trip(v: nat, n: nat)
    requires
        v < pow256(n),
    ensures
        le_bytes(v, n).len() == n,
        le_value(le_bytes(v, n)) == v,
    decreases n,
{
    if n > 0 {
        law_le_round_trip(v / 256, (n - 1) as nat);
        let s = le_bytes(v, n);
        assert(s.skip(1) =~= le_bytes(v / 256, (n - 1) as nat));
    }
}

/// Two bytes, spelled out.
pub proof fn lemma_two_bytes(a: u8, b: u8)
    ensures
        be_value(seq![a, b]) == a * 256 + b,
        le_value(seq![a, b]) == a + 256 * b,
{
    let s = seq![a, b];
    reveal_with_fuel(be_value, 3);
    reveal_with_fuel(le_value, 3);
    assert(s.drop_last() =~= seq![a]);
    assert(s.drop_last().drop_last() =~= Seq::<u8>::empty());
    assert(s.skip(1) =~= seq![b]);
    assert(s.skip(1).skip(1) =~= Seq::<u8>::empty());
}

/// The two bytes of a 16-bit number, spelled out.
pub proof fn lemma_u16_bytes(v: u16)
    ensures
        be_bytes(v as nat, 2) == seq![(v / 256) as u8, (v % 256) as u8],
        le_bytes(v as nat, 2) == seq![(v % 256) as u8, (v / 256) as u8],
{
    reveal_with_fuel(be_bytes, 3);
    reveal_with_fuel(le_bytes, 3);
    assert((v as nat / 256) % 256 == v as nat / 256);
    assert(be_bytes(v as nat, 2) =~= seq![(v / 256) as u8, (v % 256) as u8]);
    assert(le_bytes(v as nat, 2) =~= seq![(v % 256) as u8, (v / 256) as u8]);
}

pub proof fn lemma_pow256()
    ensures
        pow256(2) == 0x1_0000,
        pow256(4) == 0x1_0000_0000,
        pow256(8) == 0x1_0000_0000_0000_0000,
{
    reveal_with_fuel(pow256, 9);
}

pub proof fn lemma_be_bytes_len(v: nat, n: nat)
    ensures
        be_bytes(v, n).len() == n,
    decreases n,
{
    if n > 0 {
        lemma_be_bytes_len(v / 256, (n - 1) as nat);
    }
}

/// The highest byte stands first in the one order and last in the other: each byte counts 256
/// times the one behind it, or before it.
pub proof fn law_byte_order(s: Seq<u8>, b: u8)
    ensures
        be_value(s.push(b)) == be_value(s) * 256 + b,
        le_value(seq![b] + s) == b + 256 * le_value(s),
        be_value(Seq::empty()) == 0,
        le_value(Seq::empty()) == 0,
{
    assert(s.push(b).drop_last() =~= s);
    assert((seq![b] + s).skip(1) =~= s);
    assert((seq![b] + s)[0] == b);
}

} // verus!
