//! The guess bit string: bit `i` lives in byte `i / 8`, most significant bit
//! first, and setting a bit past the end first pads the string with zeros.

use vstd::prelude::*;

verus! {

/// Highest index that the store records a guess bit for (a bit string of
/// 2^32 bits at most).
pub const MAX_GUESS_INDEX: usize = 0xFFFF_FFFF;

/// The mask of bit `k` (0 to 7) within a byte, most significant first.
pub open spec fn mask(k: int) -> u8 {
    0x80u8 >> (k as u8)
}

/// Whether bit `i` of a bit string is set.
pub open spec fn bit_of(bits: Seq<u8>, i: int) -> bool {
    0 <= i < bits.len() * 8 && bits[i / 8] & mask(i % 8) != 0
}

/// The bit string lengthened with zero bytes to at least `n` bytes.
pub open spec fn padded(bits: Seq<u8>, n: nat) -> Seq<u8> {
    Seq::new(
        if bits.len() >= n {
            bits.len()
        } else {
            n
        },
        |k: int|
            if k < bits.len() {
                bits[k]
            } else {
                0u8
            },
    )
}

/// The bit string with bit `i` set (`on`) or cleared.
pub open spec fn with_bit(bits: Seq<u8>, i: nat, on: bool) -> Seq<u8> {
    let p = padded(bits, i / 8 + 1);
    let b = p[(i / 8) as int];
    p.update(
        (i / 8) as int,
        if on {
            b | mask((i % 8) as int)
        } else {
            b & !mask((i % 8) as int)
        },
    )
}

/// Bytes needed for `n` bits.
pub open spec fn byte_len(n: nat) -> nat {
    (n + 7) / 8
}

/// The bit string cut or zero-padded to exactly the bytes that `n` bits need.
pub open spec fn fitted(bits: Seq<u8>, n: nat) -> Seq<u8> {
    Seq::new(
        byte_len(n),
        |k: int|
            if k < bits.len() {
                bits[k]
            } else {
                0u8
            },
    )
}

proof fn lemma_byte_bits(b: u8, k: u8, j: u8)
    by (bit_vector)
    requires
        k < 8,
        j < 8,
    ensures
        ((b | (0x80u8 >> k)) & (0x80u8 >> j) != 0) == (j == k || b & (0x80u8 >> j) != 0),
        ((b & !(0x80u8 >> k)) & (0x80u8 >> j) != 0) == (j != k && b & (0x80u8 >> j) != 0),
        0u8 & (0x80u8 >> j) == 0,
{
}

/// Writing bit `i` changes that bit and no other.
pub proof fn lemma_with_bit(bits: Seq<u8>, i: nat, on: bool, j: int)
    ensures
        bit_of(with_bit(bits, i, on), j) == if j == i {
            on
        } else {
            bit_of(bits, j)
        },
{
    let q = with_bit(bits, i, on);
    let p = padded(bits, i / 8 + 1);
    if 0 <= j < q.len() * 8 {
        lemma_byte_bits(p[(i / 8) as int], (i % 8) as u8, (j % 8) as u8);
        if j / 8 != i / 8 && j / 8 >= bits.len() {
            lemma_byte_bits(0u8, 0u8, (j % 8) as u8);
        }
    }
}

/// Bit `j` of a fitted string is the unfitted string's bit when it falls within the
/// fitted length, and clear past it.
pub proof fn lemma_fitted_bit(bits: Seq<u8>, n: nat, j: int)
    ensures
        bit_of(fitted(bits, n), j) == (j < byte_len(n) * 8 && bit_of(bits, j)),
{
    if 0 <= j < byte_len(n) * 8 && j / 8 >= bits.len() {
        lemma_byte_bits(0u8, 0u8, (j % 8) as u8);
    }
}

/// Sets (`on`) or clears bit `i`, padding the string as needed.
pub fn write_bit(bits: &mut Vec<u8>, i: usize, on: bool)
    requires
        i <= MAX_GUESS_INDEX,
    ensures
        final(bits)@ == with_bit(old(bits)@, i as nat, on),
{
    let ghost orig = bits@;
    let byte = i / 8;
    let k = (i % 8) as u8;
    while bits.len() <= byte
        invariant
            byte == i / 8,
            orig.len() <= bits@.len(),
            bits@.len() <= if orig.len() >= byte + 1 {
                orig.len()
            } else {
                (byte + 1) as nat
            },
            forall|t: int|
                0 <= t < bits@.len() ==> #[trigger] bits@[t] == if t < orig.len() {
                    orig[t]
                } else {
                    0u8
                },
        decreases byte + 1 - bits@.len(),
    {
        bits.push(0);
    }
    assert(bits@ =~= padded(orig, (i / 8 + 1) as nat));
    let b = bits[byte];
    let m: u8 = 0x80u8 >> k;
    bits[byte] = if on {
        b | m
    } else {
        b & !m
    };
    assert(bits@ =~= with_bit(orig, i as nat, on));
}

/// The bit string cut or zero-padded to the bytes that `n` bits need.
pub fn fit_guesses(bits: &Vec<u8>, n: usize) -> (r: Vec<u8>)
    ensures
        r@ == fitted(bits@, n as nat),
{
    let len: usize = n / 8 + if n % 8 == 0 {
        0
    } else {
        1
    };
    assert(len == byte_len(n as nat));
    let mut r: Vec<u8> = Vec::new();
    let mut k: usize = 0;
    while k < len
        invariant
            k <= len,
            len == byte_len(n as nat),
            r@ =~= fitted(bits@, n as nat).subrange(0, k as int),
        decreases len - k,
    {
        if k < bits.len() {
            r.push(bits[k]);
        } else {
            r.push(0);
        }
        k = k + 1;
    }
    assert(r@ =~= fitted(bits@, n as nat));
    r
}

} // verus!
