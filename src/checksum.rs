//! The RFC 1071 Internet checksum.

use vstd::prelude::*;

verus! {

/// The big-endian 16-bit word at word index `k` of `data`; an odd final byte is
/// padded with a zero low byte.
pub open spec fn word_at(data: Seq<u8>, k: int) -> nat {
    let hi = data[2 * k] as nat;
    let lo: nat = if 2 * k + 1 < data.len() {
        data[2 * k + 1] as nat
    } else {
        0
    };
    hi * 256 + lo
}

/// Number of 16-bit words in `data`, counting a padded odd final byte.
pub open spec fn word_count(data: Seq<u8>) -> nat {
    (data.len() + 1) / 2
}

/// Plain (unbounded) sum of the first `n` words of `data`.
pub open spec fn sum_words(data: Seq<u8>, n: nat) -> nat
    decreases n,
{
    if n == 0 {
        0
    } else {
        sum_words(data, (n - 1) as nat) + word_at(data, n - 1)
    }
}

/// One's-complement reduction of a plain sum into 16 bits: what adding the words
/// with end-around carry yields. Zero only for a zero sum.
pub open spec fn ones_complement(total: nat) -> nat {
    if total == 0 {
        0
    } else {
        ((total - 1) % 0xFFFF + 1) as nat
    }
}

/// The Internet checksum of `data`: the complement of the one's-complement sum of
/// its big-endian 16-bit words.
pub open spec fn internet_checksum(data: Seq<u8>) -> u16 {
    (0xFFFF - ones_complement(sum_words(data, word_count(data)))) as u16
}

proof fn lemma_ones_complement_bound(total: nat)
    ensures
        ones_complement(total) <= 0xFFFF,
        ones_complement(total) == 0 <==> total == 0,
{
}

/// Adding one word with end-around carry to a reduced sum keeps it reduced.
proof fn lemma_add_word(total: nat, w: nat)
    requires
        w <= 0xFFFF,
    ensures
        ({
            let s = ones_complement(total) as int + w as int;
            if s > 0xFFFF {
                s - 0xFFFF
            } else {
                s
            }
        }) == ones_complement(total + w),
{
    if total > 0 {
        let r = (total - 1) % 0xFFFF;
        let q = (total - 1) / 0xFFFF;
        assert(total - 1 == q * 0xFFFF + r) by (nonlinear_arith)
            requires
                r == (total - 1) % 0xFFFF,
                q == (total - 1) / 0xFFFF,
        ;
        assert(0 <= r < 0xFFFF);
        assert(q >= 0) by (nonlinear_arith)
            requires
                q == (total - 1) / 0xFFFF,
                total >= 1,
        ;
        if r + w < 0xFFFF {
            assert((total + w - 1) % 0xFFFF == r + w) by (nonlinear_arith)
                requires
                    total + w - 1 == q * 0xFFFF + (r + w),
                    0 <= r + w < 0xFFFF,
            ;
        } else {
            assert((total + w - 1) % 0xFFFF == r + w - 0xFFFF) by (nonlinear_arith)
                requires
                    total + w - 1 == (q + 1) * 0xFFFF + (r + w - 0xFFFF),
                    0 <= r + w - 0xFFFF < 0xFFFF,
            ;
        }
    }
}

/// Computes the Internet checksum of `data`.
pub fn checksum(data: &[u8]) -> (r: u16)
    ensures
        r == internet_checksum(data@),
{
    let mut sum: u32 = 0;
    let mut i: usize = 0;
    let ghost mut k: nat = 0;
    while i < data.len()
        invariant
            i <= data.len(),
            i == 2 * k || (i == data.len() && i == 2 * k - 1),
            k <= word_count(data@),
            sum == ones_complement(sum_words(data@, k)),
        decreases data.len() - i,
    {
        proof {
            lemma_ones_complement_bound(sum_words(data@, k));
        }
        let hi = data[i] as u32;
        let lo: u32;
        if i + 1 < data.len() {
            lo = data[i + 1] as u32;
            i = i + 2;
        } else {
            lo = 0;
            i = i + 1;
        }
        assert(hi << 8 == hi * 256) by (bit_vector)
            requires
                hi < 256,
        ;
        let word: u32 = (hi << 8) + lo;
        assert(word == word_at(data@, k as int));
        let total: u32 = sum + word;
        assert((total & 0xFFFF) <= 0xFFFF && (total >> 16) <= 0xFFFF) by (bit_vector);
        let folded: u32 = (total & 0xFFFF) + (total >> 16);
        assert(total > 0xFFFF ==> folded == total - 0xFFFF) by (bit_vector)
            requires
                total <= 0x1FFFE,
                folded == (total & 0xFFFF) + (total >> 16),
        ;
        assert(total <= 0xFFFF ==> folded == total) by (bit_vector)
            requires
                folded == (total & 0xFFFF) + (total >> 16),
        ;
        proof {
            lemma_add_word(sum_words(data@, k), word as nat);
            k = k + 1;
        }
        sum = folded;
    }
    proof {
        lemma_ones_complement_bound(sum_words(data@, k));
    }
    assert(sum <= 0xFFFF ==> (!sum & 0xFFFF) == 0xFFFF - sum) by (bit_vector);
    (!sum & 0xFFFF) as u16
}

/// Adding the complement of a reduced sum to the sum reduces to all ones.
pub proof fn lemma_ones_complement_add_complement(total: nat)
    ensures
        ones_complement(total) <= 0xFFFF,
        ones_complement((total + (0xFFFF - ones_complement(total))) as nat) == 0xFFFF,
{
    if total > 0 {
        let m: int = 0xFFFF;
        let r = (total - 1) % m;
        let q = (total - 1) / m;
        assert(total - 1 == q * m + r && q >= 0) by (nonlinear_arith)
            requires
                r == (total - 1) % m,
                q == (total - 1) / m,
                total >= 1,
                m == 0xFFFF,
        ;
        assert(0 <= r < m);
        assert((total + (m - (r + 1)) - 1) % m == m - 1) by (nonlinear_arith)
            requires
                total - 1 == q * m + r,
                0 <= r < m,
                m == 0xFFFF,
        ;
    }
}

/// Word sums over the first `n` words agree when the words agree.
pub proof fn lemma_sum_words_agree(a: Seq<u8>, b: Seq<u8>, n: nat)
    requires
        forall|k: int| 0 <= k < n ==> word_at(a, k) == word_at(b, k),
    ensures
        sum_words(a, n) == sum_words(b, n),
    decreases n,
{
    if n > 0 {
        lemma_sum_words_agree(a, b, (n - 1) as nat);
    }
}

/// A buffer of zero bytes, of any length (the empty one included), checksums to
/// all ones.
pub proof fn lemma_zero_buffer_checksum(data: Seq<u8>)
    requires
        forall|i: int| 0 <= i < data.len() ==> data[i] == 0,
    ensures
        internet_checksum(data) == 0xFFFF,
{
    assert forall|k: int| 0 <= k < word_count(data) implies word_at(data, k) == 0 by {
        assert(data[2 * k] == 0);
    }
    lemma_zero_words(data, word_count(data));
}

proof fn lemma_zero_words(data: Seq<u8>, n: nat)
    requires
        forall|k: int| 0 <= k < n ==> word_at(data, k) == 0,
    ensures
        sum_words(data, n) == 0,
    decreases n,
{
    if n > 0 {
        lemma_zero_words(data, (n - 1) as nat);
    }
}

/// Padding a buffer of odd length with one zero byte does not change its
/// checksum.
pub proof fn lemma_trailing_zero_padding(data: Seq<u8>)
    requires
        data.len() % 2 == 1,
    ensures
        internet_checksum(data.push(0)) == internet_checksum(data),
{
    let padded = data.push(0);
    assert(word_count(padded) == word_count(data));
    assert forall|k: int| 0 <= k < word_count(data) implies word_at(padded, k) == word_at(data, k) by {
        assert(padded[2 * k] == data[2 * k]);
        if 2 * k + 1 < data.len() {
            assert(padded[2 * k + 1] == data[2 * k + 1]);
        } else {
            assert(2 * k + 1 == data.len());
            assert(padded[2 * k + 1] == 0);
        }
    }
    lemma_sum_words_agree(padded, data, word_count(data));
}

} // verus!
