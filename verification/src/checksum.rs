//! The 16-bit Internet checksum of RFC 1071, as carried by ICMP echo requests.
use vstd::prelude::*;
use vstd::arithmetic::div_mod::{
    lemma_fundamental_div_mod,
    lemma_mod_multiples_vanish,
    lemma_small_mod,
    lemma_add_mod_noop,
};

verus! {

/// 2^16: one more than the largest 16-bit word.
pub open spec fn word_base() -> nat {
    0x10000
}

/// 2^32: the range of the 32-bit accumulator.
pub open spec fn accumulator_range() -> nat {
    0x1_0000_0000
}

/// The `k`-th big-endian 16-bit word of `data`; a last odd byte is padded with a zero byte.
pub open spec fn word_at(data: Seq<u8>, k: int) -> nat {
    let hi = data[2 * k] as nat;
    let lo: nat = if 2 * k + 1 < data.len() { data[2 * k + 1] as nat } else { 0 };
    hi * 256 + lo
}

/// Number of 16-bit words that `data` is read as.
pub open spec fn word_count(data: Seq<u8>) -> nat {
    ((data.len() + 1) / 2) as nat
}

/// Exact (unbounded) sum of the first `k` words of `data`.
pub open spec fn words_sum(data: Seq<u8>, k: nat) -> nat
    decreases k,
{
    if k == 0 {
        0
    } else {
        words_sum(data, (k - 1) as nat) + word_at(data, k - 1)
    }
}

/// The value of the 32-bit accumulator after all words are added with wrap-around.
pub open spec fn accumulated(data: Seq<u8>) -> nat {
    words_sum(data, word_count(data)) % accumulator_range()
}

/// Folds the carries above bit 15 back into the low 16 bits until none remain.
pub open spec fn fold_carries(x: nat) -> nat
    decreases x,
{
    if x < word_base() {
        x
    } else {
        proof {
            lemma_fold_step_smaller(x);
        }
        fold_carries(x % word_base() + x / word_base())
    }
}

/// The Internet checksum of `data`: the one's complement of the folded sum of its words.
pub open spec fn internet_checksum_spec(data: Seq<u8>) -> u16 {
    (0xFFFF - fold_carries(accumulated(data))) as u16
}

/// `data` with the 16-bit value `c` written big-endian at byte offset `p`.
pub open spec fn with_word_at(data: Seq<u8>, p: int, c: u16) -> Seq<u8> {
    data.update(p, (c / 256) as u8).update(p + 1, (c % 256) as u8)
}

/// One folding step strictly shrinks a value of 2^16 or more and keeps it congruent modulo 0xFFFF.
pub proof fn lemma_fold_step_smaller(x: nat)
    requires
        x >= 0x10000,
    ensures
        x % 0x10000 + x / 0x10000 < x,
        (x % 0x10000 + x / 0x10000) % 0xFFFF == x % 0xFFFF,
        x % 0x10000 + x / 0x10000 > 0,
{
    let q = x as int / 0x10000;
    let r = x as int % 0x10000;
    lemma_fundamental_div_mod(x as int, 0x10000);
    assert(x == 0x10000 * q + r);
    assert(q >= 1);
    assert(0 <= r < 0x10000);
    assert(x == 0xFFFF * q + (q + r));
    lemma_mod_multiples_vanish(q, q + r, 0xFFFF);
}

/// Folding yields a 16-bit value, congruent to its input modulo 0xFFFF, and zero only for zero.
pub proof fn lemma_fold_carries_properties(x: nat)
    ensures
        fold_carries(x) < 0x10000,
        fold_carries(x) % 0xFFFF == x % 0xFFFF,
        fold_carries(x) == 0 <==> x == 0,
    decreases x,
{
    if x >= 0x10000 {
        lemma_fold_step_smaller(x);
        lemma_fold_carries_properties(x % 0x10000 + x / 0x10000);
    }
}

/// Adding the first `k` words is the same whether or not a zero word at even offset `p`
/// was replaced by `c`, except that `c` is added once `k` passes that word.
proof fn lemma_words_sum_with_word(data: Seq<u8>, p: int, c: u16, k: nat)
    requires
        p % 2 == 0,
        0 <= p,
        p + 1 < data.len(),
        data[p] == 0,
        data[p + 1] == 0,
        k <= word_count(data),
    ensures
        words_sum(with_word_at(data, p, c), k) == words_sum(data, k) + (if k > p / 2 {
            c as nat
        } else {
            0
        }),
    decreases k,
{
    let d2 = with_word_at(data, p, c);
    if k > 0 {
        lemma_words_sum_with_word(data, p, c, (k - 1) as nat);
        let j = k - 1;
        assert(d2.len() == data.len());
        if j == p / 2 {
            assert(2 * j == p);
            assert(d2[2 * j] == (c / 256) as u8);
            assert(d2[2 * j + 1] == (c % 256) as u8);
            assert(word_at(d2, j) == c as nat);
            assert(word_at(data, j) == 0);
        } else {
            assert(2 * j != p && 2 * j != p + 1);
            assert(2 * j + 1 != p && 2 * j + 1 != p + 1);
            assert(d2[2 * j] == data[2 * j]);
            assert(2 * j + 1 < data.len() ==> d2[2 * j + 1] == data[2 * j + 1]);
            assert(word_at(d2, j) == word_at(data, j));
        }
    }
}

/// A checksum written over a zeroed 16-bit field at an even offset makes the whole data
/// check to zero.
pub proof fn lemma_checksum_verifies(data: Seq<u8>, p: int)
    requires
        p % 2 == 0,
        0 <= p,
        p + 1 < data.len(),
        data[p] == 0,
        data[p + 1] == 0,
    ensures
        internet_checksum_spec(with_word_at(data, p, internet_checksum_spec(data))) == 0,
{
    let c = internet_checksum_spec(data);
    let d2 = with_word_at(data, p, c);
    let n = word_count(data);
    assert(word_count(d2) == n);
    assert(p / 2 < n);
    lemma_words_sum_with_word(data, p, c, n);
    let t = words_sum(data, n);
    let raw = accumulated(data);
    lemma_fold_carries_properties(raw);
    let f = fold_carries(raw);
    assert(c as nat == 0xFFFF - f);
    // Adding the checksum never wraps the accumulator: the accumulator exceeds its fold by
    // a multiple of 0xFFFF that is at most 0x10000 * 0xFFFF.
    assert(raw + c < 0x1_0000_0000) by {
        lemma_fundamental_div_mod(raw as int, 0xFFFF);
        lemma_fundamental_div_mod(f as int, 0xFFFF);
        let k = raw as int / 0xFFFF;
        let m = f as int / 0xFFFF;
        let d = k - m;
        assert(raw - f == 0xFFFF * d);
        if d >= 65537 {
            assert(0xFFFF * d >= 0xFFFF * 65537) by (nonlinear_arith)
                requires
                    d >= 65537,
            ;
            assert(raw < 0x1_0000_0000);
            assert(f == 0);
        } else {
            assert(0xFFFF * d <= 0xFFFF * 65536) by (nonlinear_arith)
                requires
                    d <= 65536,
            ;
        }
    }
    // The accumulator does not wrap while the checksum is added.
    lemma_fundamental_div_mod(t as int, 0x1_0000_0000);
    let q = t as int / 0x1_0000_0000;
    assert(t + c == 0x1_0000_0000 * q + (raw + c));
    lemma_mod_multiples_vanish(q, raw + c, 0x1_0000_0000);
    lemma_small_mod((raw + c) as nat, 0x1_0000_0000);
    let x: nat = (raw + c) as nat;
    assert(accumulated(d2) == x);
    // The new accumulator is a positive multiple of 0xFFFF.
    assert(x == 0xFFFF + (raw - f));
    lemma_fundamental_div_mod(raw as int, 0xFFFF);
    lemma_fundamental_div_mod(f as int, 0xFFFF);
    assert(x % 0xFFFF == 0) by {
        let k = raw as int / 0xFFFF;
        let m = f as int / 0xFFFF;
        assert(raw - f == 0xFFFF * (k - m));
        assert(x == 0xFFFF * (1 + k - m) + 0);
        lemma_mod_multiples_vanish(1 + k - m, 0, 0xFFFF);
    }
    assert(x > 0) by {
        if raw == 0 {
            assert(f == 0);
        }
    }
    lemma_fold_carries_properties(x);
    let g = fold_carries(x);
    assert(g == 0xFFFF) by {
        if g < 0xFFFF {
            lemma_small_mod(g, 0xFFFF);
        }
    }
}

/// Computes the RFC 1071 16-bit Internet checksum of `data`.
pub fn internet_checksum(data: &[u8]) -> (csum: u16)
    ensures
        csum == internet_checksum_spec(data@),
{
    let n: usize = data.len();
    let mut sum: u32 = 0;
    let mut i: usize = 0;
    while n - i >= 2
        invariant
            n == data@.len(),
            i <= n,
            i % 2 == 0,
            sum as nat == words_sum(data@, (i / 2) as nat) % accumulator_range(),
        decreases n - i,
    {
        let word: u32 = (data[i] as u32) * 256 + (data[i + 1] as u32);
        proof {
            assert(word == word_at(data@, (i / 2) as int));
            lemma_add_mod_noop(words_sum(data@, (i / 2) as nat) as int, word as int, 0x1_0000_0000);
            lemma_small_mod(word as nat, 0x1_0000_0000);
            assert(((i + 2) / 2) as nat == (i / 2) as nat + 1);
        }
        sum = sum.wrapping_add(word);
        i = i + 2;
    }
    if i < n {
        let word: u32 = (data[i] as u32) * 256;
        proof {
            assert(i + 1 == n);
            assert(word == word_at(data@, (i / 2) as int));
            lemma_add_mod_noop(words_sum(data@, (i / 2) as nat) as int, word as int, 0x1_0000_0000);
            lemma_small_mod(word as nat, 0x1_0000_0000);
        }
        sum = sum.wrapping_add(word);
        assert(word_count(data@) == (i / 2) as nat + 1);
    } else {
        assert(word_count(data@) == (i / 2) as nat);
    }
    assert(sum as nat == accumulated(data@));
    while (sum >> 16) != 0
        invariant
            fold_carries(sum as nat) == fold_carries(accumulated(data@)),
        decreases sum,
    {
        let low: u32 = sum & 0xffff;
        let high: u32 = sum >> 16;
        assert(low == sum % 0x10000 && high == sum / 0x10000) by (bit_vector)
            requires
                low == sum & 0xffff,
                high == sum >> 16,
        ;
        assert(sum >= 0x10000) by (bit_vector)
            requires
                (sum >> 16) != 0,
        ;
        proof {
            lemma_fold_step_smaller(sum as nat);
        }
        sum = low + high;
    }
    assert(sum < 0x10000) by (bit_vector)
        requires
            (sum >> 16) == 0,
    ;
    let folded: u16 = sum as u16;
    let csum: u16 = !folded;
    assert(csum == 0xFFFF - folded) by (bit_vector)
        requires
            csum == !folded,
    ;
    csum
}

} // verus!
