//! Counting the leading zero bits of a byte string, the measure of work in
//! the proof-of-work checks.
use vstd::prelude::*;
use vstd::std_specs::bits::u8_leading_zeros;

verus! {

/// The number of leading zero bits of `bytes`: bytes are read first to last,
/// and the bits of each byte from the most significant down.
pub open spec fn leading_zero_bits_of(bytes: Seq<u8>) -> nat
    decreases bytes.len(),
{
    if bytes.len() == 0 {
        0
    } else if bytes[0] == 0 {
        8 + leading_zero_bits_of(bytes.drop_first())
    } else {
        u8_leading_zeros(bytes[0]) as nat
    }
}

/// Bit `k` of `bytes` in the same reading order: bit `k % 8`, counted from the
/// most significant end, of byte `k / 8`.
pub open spec fn bit_at(bytes: Seq<u8>, k: int) -> u8 {
    (bytes[k / 8] >> ((7 - k % 8) as u8)) & 1u8
}

/// Bit `k` of a byte string whose first byte is dropped is bit `k + 8` of
/// the whole string.
proof fn lemma_bit_at_drop_first(bytes: Seq<u8>, k: int)
    requires
        bytes.len() > 0,
        0 <= k < 8 * (bytes.len() - 1),
    ensures
        bit_at(bytes.drop_first(), k) == bit_at(bytes, k + 8),
{
    assert((k + 8) / 8 == k / 8 + 1);
    assert((k + 8) % 8 == k % 8);
}

/// The count is exact: it never exceeds the number of bits, every bit before
/// it is zero, and the bit at it, when there is one, is one.
pub proof fn lemma_leading_zero_bits_exact(bytes: Seq<u8>)
    ensures
        leading_zero_bits_of(bytes) <= 8 * bytes.len(),
        forall|k: int| 0 <= k < leading_zero_bits_of(bytes) ==> #[trigger] bit_at(bytes, k) == 0,
        leading_zero_bits_of(bytes) < 8 * bytes.len() ==> bit_at(
            bytes,
            leading_zero_bits_of(bytes) as int,
        ) == 1,
    decreases bytes.len(),
{
    if bytes.len() == 0 {
        return;
    }
    let b = bytes[0];
    if b == 0 {
        let rest = bytes.drop_first();
        lemma_leading_zero_bits_exact(rest);
        let n = leading_zero_bits_of(bytes);
        assert forall|k: int| 0 <= k < n implies #[trigger] bit_at(bytes, k) == 0 by {
            if k < 8 {
                let s = (7 - k % 8) as u8;
                assert((0u8 >> s) & 1u8 == 0u8) by (bit_vector);
            } else {
                lemma_bit_at_drop_first(bytes, k - 8);
                assert(bit_at(rest, k - 8) == 0);
            }
        }
        if n < 8 * bytes.len() {
            lemma_bit_at_drop_first(bytes, n - 8);
        }
    } else {
        vstd::std_specs::bits::axiom_u8_leading_zeros(b);
        let lz = u8_leading_zeros(b);
        assert(lz < 8);
        assert forall|k: int| 0 <= k < lz implies #[trigger] bit_at(bytes, k) == 0 by {
            let j = (7 - k) as u8;
            assert(8 - lz <= j < 8);
            assert((b >> j) & 1u8 == 0u8);
        }
        let top = (7 - lz) as u8;
        assert((b >> top) & 1u8 != 0u8);
        assert((b >> top) & 1u8 != 0u8 ==> (b >> top) & 1u8 == 1u8) by (bit_vector);
    }
}

} // verus!
