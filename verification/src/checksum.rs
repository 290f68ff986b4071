//! The RFC 1071 Internet checksum: the ones' complement of the carry-folded,
//! 32-bit wrapping sum of a buffer's big-endian 16-bit words. An odd final
//! byte is treated as the high byte of a word whose low byte is zero.

use vstd::prelude::*;

verus! {

/// Number of 16-bit words covering `len` bytes; an odd final byte forms its
/// own (zero-padded) word.
pub open spec fn word_count(len: int) -> int {
    (len + 1) / 2
}

/// The `i`-th big-endian 16-bit word of `data`; an odd final byte is padded
/// with a zero low byte.
pub open spec fn word_at(data: Seq<u8>, i: int) -> int {
    if 2 * i + 1 < data.len() {
        data[2 * i] * 0x100 + data[2 * i + 1]
    } else {
        data[2 * i] * 0x100
    }
}

/// Sum of the first `n` words of `data`, accumulated with 32-bit wraparound.
pub open spec fn sum_words(data: Seq<u8>, n: int) -> int
    decreases n,
{
    if n <= 0 {
        0
    } else {
        (sum_words(data, n - 1) + word_at(data, n - 1)) % 0x1_0000_0000
    }
}

/// Fold any carries above 16 bits back into the low 16 bits until none remain.
pub open spec fn fold_carries(s: int) -> int
    decreases s,
    via fold_carries_decreases
{
    if s < 0x1_0000 {
        s
    } else {
        fold_carries(s % 0x1_0000 + s / 0x1_0000)
    }
}

#[via_fn]
proof fn fold_carries_decreases(s: int) {
    if s >= 0x1_0000 {
        assert(s % 0x1_0000 + s / 0x1_0000 < s) by (nonlinear_arith)
            requires s >= 0x1_0000;
    }
}

/// The Internet checksum of `data`: the ones' complement (`0xFFFF - x` on a
/// 16-bit value) of the folded word sum.
pub open spec fn spec_checksum(data: Seq<u8>) -> u16 {
    (0xFFFF - fold_carries(sum_words(data, word_count(data.len() as int)))) as u16
}

/// Computes the RFC 1071 Internet checksum of `data`.
pub fn calc_checksum(data: &[u8]) -> (r: u16)
    ensures
        r == spec_checksum(data@),
{
    let n = data.len();
    let mut sum: u64 = 0;
    let mut i: usize = 0;
    while i < n
        invariant
            n == data@.len(),
            i <= n,
            i % 2 == 0 || i == n,
            sum < 0x1_0000_0000,
            sum == sum_words(data@, word_count(i as int)),
        decreases n - i,
    {
        let hi = data[i] as u64;
        let lo: u64 = if i + 1 < n {
            data[i + 1] as u64
        } else {
            0
        };
        let word = hi * 0x100 + lo;
        sum = sum + word;
        if sum >= 0x1_0000_0000 {
            sum = sum - 0x1_0000_0000;
        }
        proof {
            assert(word_at(data@, i as int / 2) == word);
            assert(word_count(i as int) + 1 == word_count(i + 2));
        }
        if i + 1 < n {
            i = i + 2;
        } else {
            i = n;
        }
    }
    let ghost total: int = sum as int;
    while sum >= 0x1_0000
        invariant
            fold_carries(sum as int) == fold_carries(total),
        decreases sum,
    {
        proof {
            assert(sum as int % 0x1_0000 + sum as int / 0x1_0000 < sum as int)
                by (nonlinear_arith)
                requires sum as int >= 0x1_0000;
        }
        sum = sum % 0x1_0000 + sum / 0x1_0000;
    }
    (0xFFFF - sum as u16) as u16
}

/// `data` with the two checksum-field bytes at `offset` replaced by zero.
pub open spec fn with_zeroed_checksum(data: Seq<u8>, offset: int) -> Seq<u8> {
    data.update(offset, 0u8).update(offset + 1, 0u8)
}

/// The big-endian 16-bit value stored at `offset` in `data`.
pub open spec fn stored_word(data: Seq<u8>, offset: int) -> int {
    data[offset] * 0x100 + data[offset + 1]
}

/// A buffer validates at `offset` when the checksum computed with that field
/// zeroed equals the value the field holds.
pub open spec fn spec_validate(data: Seq<u8>, offset: int) -> bool {
    spec_checksum(with_zeroed_checksum(data, offset)) == stored_word(data, offset)
}

/// Checks the checksum stored big-endian at `checksum_field_offset`: computes
/// the checksum of `data` with those two bytes treated as zero and compares
/// it with the stored value.
pub fn validate(data: &[u8], checksum_field_offset: usize) -> (r: bool)
    requires
        checksum_field_offset + 1 < data@.len(),
    ensures
        r == spec_validate(data@, checksum_field_offset as int),
{
    let n = data.len();
    let mut zeroed: Vec<u8> = Vec::new();
    let mut i: usize = 0;
    while i < n
        invariant
            n == data@.len(),
            i <= n,
            zeroed@ == data@.subrange(0, i as int),
        decreases n - i,
    {
        zeroed.push(data[i]);
        i = i + 1;
    }
    assert(zeroed@ =~= data@);
    zeroed[checksum_field_offset] = 0;
    zeroed[checksum_field_offset + 1] = 0;
    assert(zeroed@ == with_zeroed_checksum(data@, checksum_field_offset as int));
    let computed = calc_checksum(zeroed.as_slice());
    let stored_hi = data[checksum_field_offset] as u16;
    let stored_lo = data[checksum_field_offset + 1] as u16;
    let stored = stored_hi * 0x100 + stored_lo;
    computed == stored
}

/// Two buffers whose first `n` words agree have equal word sums over those words.
proof fn lemma_sum_words_congruent(a: Seq<u8>, b: Seq<u8>, n: int)
    requires
        forall|i: int| 0 <= i < n ==> word_at(a, i) == word_at(b, i),
    ensures
        sum_words(a, n) == sum_words(b, n),
    decreases n,
{
    if n > 0 {
        lemma_sum_words_congruent(a, b, n - 1);
    }
}

/// Checksum round trip: take a buffer whose checksum field is zeroed, compute
/// its checksum, and write that value big-endian into the field; the resulting
/// buffer validates at that field.
pub proof fn lemma_checksum_round_trip(data: Seq<u8>, offset: int)
    requires
        0 <= offset,
        offset + 1 < data.len(),
        data[offset] == 0,
        data[offset + 1] == 0,
    ensures
        ({
            let c = spec_checksum(data);
            let sent = data.update(offset, (c / 0x100) as u8).update(offset + 1, (c % 0x100) as u8);
            spec_validate(sent, offset)
        }),
{
    let c = spec_checksum(data);
    let sent = data.update(offset, (c / 0x100) as u8).update(offset + 1, (c % 0x100) as u8);
    assert(with_zeroed_checksum(sent, offset) =~= data);
    assert(stored_word(sent, offset) == (c / 0x100) * 0x100 + c % 0x100);
    assert((c / 0x100) * 0x100 + c % 0x100 == c);
}

/// Appending one zero byte to an odd-length buffer does not change its
/// checksum: the engine already pads the final byte with a zero.
pub proof fn lemma_odd_length_zero_pad(data: Seq<u8>)
    requires
        data.len() % 2 == 1,
    ensures
        spec_checksum(data) == spec_checksum(data.push(0)),
{
    let padded = data.push(0);
    let n = word_count(data.len() as int);
    assert(word_count(padded.len() as int) == n);
    assert forall|i: int| 0 <= i < n implies word_at(data, i) == word_at(padded, i) by {
        if 2 * i + 1 < data.len() {
            assert(word_at(padded, i) == padded[2 * i] * 0x100 + padded[2 * i + 1]);
        } else {
            assert(2 * i == data.len() - 1);
            assert(word_at(padded, i) == padded[2 * i] * 0x100 + padded[2 * i + 1]);
            assert(padded[2 * i + 1] == 0);
        }
    }
    lemma_sum_words_congruent(data, padded, n);
}

} // verus!
