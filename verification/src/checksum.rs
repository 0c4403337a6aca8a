//! One's-complement arithmetic of the Internet checksum.

use vstd::prelude::*;

verus! {

/// The 16-bit one's-complement value of a sum of 16-bit words: the sum with
/// every carry out of bit 15 added back in at bit 0.
///
/// Zero stays zero; any other sum lands in `1..=0xFFFF`, on the one value of
/// that range that is congruent to it modulo `0xFFFF`.
pub open spec fn fold_spec(sum: nat) -> u16 {
    if sum == 0 {
        0u16
    } else {
        (((sum - 1) % 0xFFFF) + 1) as u16
    }
}

/// Folds a 32-bit accumulator of 16-bit words into one 16-bit word with
/// end-around carry.
pub fn fold(sum: u32) -> (r: u16)
    ensures
        r == fold_spec(sum as nat),
{
    let low: u32 = sum & 0xFFFF;
    let high: u32 = sum >> 16;
    assert(low <= 0xFFFF && high <= 0xFFFF && sum == high * 0x10000 + low) by (bit_vector)
        requires
            low == sum & 0xFFFF,
            high == sum >> 16,
    ;
    let once: u32 = low + high;
    let low2: u32 = once & 0xFFFF;
    let high2: u32 = once >> 16;
    assert(low2 <= 0xFFFF && high2 <= 1 && once == high2 * 0x10000 + low2) by (bit_vector)
        requires
            low2 == once & 0xFFFF,
            high2 == once >> 16,
            once <= 0x1FFFE,
    ;
    let twice: u32 = low2 + high2;
    assert(twice <= 0xFFFF) by {
        if high2 == 1 {
            assert(low2 <= 0xFFFE);
        }
    }
    let r: u16 = twice as u16;
    assert(r == fold_spec(sum as nat)) by (nonlinear_arith)
        requires
            sum == high * 0x10000 + low,
            once == low + high,
            once == high2 * 0x10000 + low2,
            twice == low2 + high2,
            twice <= 0xFFFF,
            low <= 0xFFFF,
            high <= 0xFFFF,
            high2 <= 1,
            low2 <= 0xFFFF,
            r == twice,
    ;
    r
}

/// The one's complement of a 16-bit word.
pub open spec fn complement(x: u16) -> u16 {
    (0xFFFF - x) as u16
}

/// The upper 16 bits of a 32-bit value.
pub open spec fn high_word(v: u32) -> u16 {
    (v / 0x1_0000) as u16
}

/// The lower 16 bits of a 32-bit value.
pub open spec fn low_word(v: u32) -> u16 {
    (v % 0x1_0000) as u16
}

/// The 16-bit word that the bytes at `2 * i` and `2 * i + 1` spell in
/// network byte order.
pub open spec fn word_at(bytes: Seq<u8>, i: int) -> nat
    recommends
        0 <= i,
        2 * i + 2 <= bytes.len(),
{
    (bytes[2 * i] as nat) * 256 + (bytes[2 * i + 1] as nat)
}

/// The plain sum of the first `n` 16-bit words of `bytes`.
pub open spec fn words_sum(bytes: Seq<u8>, n: nat) -> nat
    recommends
        2 * n <= bytes.len(),
    decreases n,
{
    if n == 0 {
        0
    } else {
        words_sum(bytes, (n - 1) as nat) + word_at(bytes, n - 1)
    }
}

/// The checksum of a header whose 16-bit words, the checksum field left
/// out, add up to `sum`: the complement of the folded sum.
pub open spec fn checksum_of_sum(sum: nat) -> u16 {
    complement(fold_spec(sum))
}

/// The checksum that a header has after a 32-bit field changed from
/// `old_value` to `new_value`, worked out from its checksum before the
/// change alone: `~(~check + ~old_value + new_value)` in one's-complement
/// arithmetic on 16-bit words.
pub open spec fn update_spec(check: u16, old_value: u32, new_value: u32) -> u16 {
    complement(
        fold_spec(
            (complement(check) + complement(high_word(old_value)) + complement(
                low_word(old_value),
            ) + high_word(new_value) + low_word(new_value)) as nat,
        ),
    )
}

/// Updates a checksum for a 32-bit field that changes from `old_value` to
/// `new_value`, without looking at the rest of the header.
pub fn update(check: u16, old_value: u32, new_value: u32) -> (r: u16)
    ensures
        r == update_spec(check, old_value, new_value),
{
    let old_high: u16 = (old_value >> 16) as u16;
    let old_low: u16 = (old_value & 0xFFFF) as u16;
    let new_high: u16 = (new_value >> 16) as u16;
    let new_low: u16 = (new_value & 0xFFFF) as u16;
    assert(old_high == high_word(old_value) && old_low == low_word(old_value)) by (bit_vector)
        requires
            old_high == (old_value >> 16) as u16,
            old_low == (old_value & 0xFFFF) as u16,
    ;
    assert(new_high == high_word(new_value) && new_low == low_word(new_value)) by (bit_vector)
        requires
            new_high == (new_value >> 16) as u16,
            new_low == (new_value & 0xFFFF) as u16,
    ;
    let not_check: u16 = !check;
    let not_high: u16 = !old_high;
    let not_low: u16 = !old_low;
    assert(not_check == complement(check)) by (bit_vector)
        requires
            not_check == !check,
    ;
    assert(not_high == complement(old_high)) by (bit_vector)
        requires
            not_high == !old_high,
    ;
    assert(not_low == complement(old_low)) by (bit_vector)
        requires
            not_low == !old_low,
    ;
    let sum: u32 = not_check as u32 + not_high as u32 + not_low as u32 + new_high as u32
        + new_low as u32;
    let folded: u16 = fold(sum);
    let r: u16 = !folded;
    assert(r == complement(folded)) by (bit_vector)
        requires
            r == !folded,
    ;
    r
}

/// The folded sum of a non-empty sum is congruent to it modulo `0xFFFF` and
/// is not zero.
pub proof fn lemma_fold_congruent(sum: nat)
    ensures
        fold_spec(sum) as nat % 0xFFFF == sum % 0xFFFF,
        sum > 0 ==> 1 <= fold_spec(sum),
        sum == 0 ==> fold_spec(sum) == 0,
{
    if sum > 0 {
        let q = (sum - 1) / 0xFFFF;
        let m = (sum - 1) % 0xFFFF;
        assert(sum - 1 == 0xFFFF * q + m && 0 <= m < 0xFFFF) by (nonlinear_arith)
            requires
                q == (sum - 1) / 0xFFFF,
                m == (sum - 1) % 0xFFFF,
                sum >= 1,
        ;
        assert(fold_spec(sum) == m + 1);
        assert((m + 1) as nat % 0xFFFF == sum % 0xFFFF) by (nonlinear_arith)
            requires
                sum - 1 == 0xFFFF * q + m,
                0 <= m < 0xFFFF,
                q >= 0,
        ;
    }
}

/// Two non-empty sums that are congruent modulo `0xFFFF` fold to the same
/// word.
pub proof fn lemma_fold_of_congruent(a: nat, b: nat)
    requires
        a > 0,
        b > 0,
        a % 0xFFFF == b % 0xFFFF,
    ensures
        fold_spec(a) == fold_spec(b),
{
    assert((a - 1) % 0xFFFF == (b - 1) % 0xFFFF) by (nonlinear_arith)
        requires
            a > 0,
            b > 0,
            a % 0xFFFF == b % 0xFFFF,
    ;
}

/// The incremental update agrees with a recomputation from scratch.
///
/// Take a header whose 16-bit words outside the checksum and outside one
/// 32-bit field add up to `rest`, and whose checksum is right while the field
/// holds `old_value`. Updating that checksum for `new_value` gives the
/// checksum of the header with `new_value` in the field, provided that the
/// new header is not zero in every word.
pub proof fn lemma_update_matches_recomputation(rest: nat, old_value: u32, new_value: u32)
    requires
        rest + high_word(new_value) + low_word(new_value) > 0,
    ensures
        update_spec(
            checksum_of_sum((rest + high_word(old_value) + low_word(old_value)) as nat),
            old_value,
            new_value,
        ) == checksum_of_sum((rest + high_word(new_value) + low_word(new_value)) as nat),
{
    let old_sum: nat = (rest + high_word(old_value) + low_word(old_value)) as nat;
    let new_sum: nat = (rest + high_word(new_value) + low_word(new_value)) as nat;
    let folded_old = fold_spec(old_sum);
    lemma_fold_congruent(old_sum);
    assert(complement(complement(folded_old)) == folded_old);
    let stepped: nat = (folded_old + complement(high_word(old_value)) + complement(
        low_word(old_value),
    ) + high_word(new_value) + low_word(new_value)) as nat;
    assert(stepped > 0) by {
        if old_sum == 0 {
            assert(high_word(old_value) == 0 && low_word(old_value) == 0);
        }
    }
    assert(stepped % 0xFFFF == new_sum % 0xFFFF) by (nonlinear_arith)
        requires
            folded_old as nat % 0xFFFF == old_sum % 0xFFFF,
            old_sum == rest + high_word(old_value) + low_word(old_value),
            new_sum == rest + high_word(new_value) + low_word(new_value),
            stepped == folded_old + (0xFFFF - high_word(old_value)) + (0xFFFF - low_word(
                old_value,
            )) + high_word(new_value) + low_word(new_value),
    ;
    lemma_fold_of_congruent(stepped, new_sum);
}

} // verus!
