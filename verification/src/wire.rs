//! Wire primitives: fields at their offsets in a sequence of bytes, and
//! numbers in bytes, least significant byte first.

use vstd::prelude::*;

verus! {

/// The number that the bytes of `s` stand for, least significant byte first.
pub open spec fn le_value(s: Seq<u8>) -> nat
    decreases s.len(),
{
    if s.len() == 0 {
        0
    } else {
        s[0] as nat + 256 * le_value(s.drop_first())
    }
}

/// The `width` bytes that stand for `v`, least significant byte first.
/// Digits of `v` beyond `width` bytes are dropped.
pub open spec fn le_bytes(v: nat, width: nat) -> Seq<u8>
    decreases width,
{
    if width == 0 {
        Seq::empty()
    } else {
        seq![(v % 256) as u8] + le_bytes(v / 256, (width - 1) as nat)
    }
}

/// The number of values that `width` bytes can tell apart: 256 to the power `width`.
pub open spec fn radix_power(width: nat) -> nat
    decreases width,
{
    if width == 0 {
        1
    } else {
        256 * radix_power((width - 1) as nat)
    }
}

/// Four bytes tell apart 2^32 values, eight bytes 2^64.
pub proof fn lemma_radix_power_values()
    ensures
        radix_power(0) == 1,
        radix_power(4) == 0x1_0000_0000,
        radix_power(8) == 0x1_0000_0000_0000_0000,
{
    reveal_with_fuel(radix_power, 9);
}

/// More bytes tell apart at least as many values.
pub proof fn lemma_radix_power_monotonic(a: nat, b: nat)
    requires
        a <= b,
    ensures
        radix_power(a) <= radix_power(b),
    decreases b,
{
    if a < b {
        lemma_radix_power_monotonic(a, (b - 1) as nat);
    }
}

/// `le_bytes` yields exactly `width` bytes.
pub proof fn lemma_le_bytes_len(v: nat, width: nat)
    ensures
        le_bytes(v, width).len() == width,
    decreases width,
{
    if width > 0 {
        lemma_le_bytes_len(v / 256, (width - 1) as nat);
    }
}

/// A sequence of bytes stands for a number below 256 to the power of its length.
pub proof fn lemma_le_value_bound(s: Seq<u8>)
    ensures
        le_value(s) < radix_power(s.len()),
    decreases s.len(),
{
    if s.len() > 0 {
        lemma_le_value_bound(s.drop_first());
    }
}

/// Reading back what was written gives the number, as long as it fits.
pub proof fn lemma_le_value_of_bytes(v: nat, width: nat)
    requires
        v < radix_power(width),
    ensures
        le_value(le_bytes(v, width)) == v,
    decreases width,
{
    if width > 0 {
        let rest = le_bytes(v / 256, (width - 1) as nat);
        let all = le_bytes(v, width);
        lemma_le_value_of_bytes(v / 256, (width - 1) as nat);
        assert(all.drop_first() =~= rest);
        assert(all[0] == (v % 256) as u8);
    }
}

/// Writing the number that bytes stand for gives the bytes back.
pub proof fn lemma_le_bytes_of_value(s: Seq<u8>)
    ensures
        le_bytes(le_value(s), s.len()) == s,
    decreases s.len(),
{
    if s.len() > 0 {
        let rest = s.drop_first();
        lemma_le_bytes_of_value(rest);
        let v = le_value(s);
        assert(v == s[0] as nat + 256 * le_value(rest));
        assert(v % 256 == s[0] as nat);
        assert(v / 256 == le_value(rest));
        assert(le_bytes(v, s.len()) =~= s);
    } else {
        assert(le_bytes(le_value(s), s.len()) =~= s);
    }
}

/// Whether `n` bytes lie in `s` from offset `at` on.
pub open spec fn holds(s: Seq<u8>, at: int, n: int) -> bool {
    0 <= at && 0 <= n && at + n <= s.len()
}

/// The `n` bytes of `s` from offset `at` on.
pub open spec fn field(s: Seq<u8>, at: int, n: int) -> Seq<u8> {
    s.subrange(at, at + n)
}

/// Reads the little-endian number held in the `width` bytes from offset `at` on.
pub fn le_number_at(bytes: &[u8], at: usize, width: usize) -> (v: u64)
    requires
        width <= 8,
        holds(bytes@, at as int, width as int),
    ensures
        v as nat == le_value(field(bytes@, at as int, width as int)),
{
    let ghost all = field(bytes@, at as int, width as int);
    let mut acc: u64 = 0;
    let mut i: usize = width;
    proof {
        assert(all.subrange(width as int, width as int) =~= Seq::<u8>::empty());
        lemma_radix_power_values();
        assert(bytes@.len() == bytes.len());
    }
    while i > 0
        invariant
            i <= width <= 8,
            at + width <= usize::MAX,
            holds(bytes@, at as int, width as int),
            all == field(bytes@, at as int, width as int),
            acc as nat == le_value(all.subrange(i as int, width as int)),
            (acc as nat) < radix_power((width - i) as nat),
        decreases i,
    {
        let ghost before = all.subrange(i as int, width as int);
        i = i - 1;
        let b: u8 = bytes[at + i];
        proof {
            let now = all.subrange(i as int, width as int);
            assert(now.drop_first() =~= before);
            assert(now[0] == b);
            assert(le_value(now) == b as nat + 256 * acc as nat);
            lemma_le_value_bound(now);
            lemma_radix_power_monotonic((width - i) as nat, 8);
            lemma_radix_power_values();
        }
        acc = acc * 256 + b as u64;
    }
    proof {
        assert(all.subrange(0, width as int) =~= all);
    }
    acc
}

} // verus!
