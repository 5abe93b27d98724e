//! Big-endian fields and the Internet checksum (RFC 1071).

use vstd::prelude::*;
use vstd::arithmetic::div_mod::lemma_mod_multiples_vanish;

verus! {

/// The 16-bit number written big-endian as `hi`, `lo`.
pub open spec fn be16_spec(hi: u8, lo: u8) -> u16 {
    (hi * 256 + lo) as u16
}

/// The 32-bit number written big-endian as four bytes.
pub open spec fn be32_spec(a: u8, b: u8, c: u8, d: u8) -> u32 {
    (a * 0x100_0000 + b * 0x1_0000 + c * 0x100 + d) as u32
}

/// High byte of a 16-bit number.
pub open spec fn hi8_spec(v: u16) -> u8 {
    (v / 256) as u8
}

/// Low byte of a 16-bit number.
pub open spec fn lo8_spec(v: u16) -> u8 {
    (v % 256) as u8
}

/// Reads a big-endian 16-bit number.
pub fn be16(hi: u8, lo: u8) -> (r: u16)
    ensures
        r == be16_spec(hi, lo),
        r == hi * 256 + lo,
{
    (hi as u16) * 256 + (lo as u16)
}

/// Reads a big-endian 32-bit number.
pub fn be32(a: u8, b: u8, c: u8, d: u8) -> (r: u32)
    ensures
        r == be32_spec(a, b, c, d),
        r == a * 0x100_0000 + b * 0x1_0000 + c * 0x100 + d,
{
    (a as u32) * 0x100_0000 + (b as u32) * 0x1_0000 + (c as u32) * 0x100 + (d as u32)
}

/// High byte of a 16-bit number.
pub fn hi8(v: u16) -> (r: u8)
    ensures
        r == hi8_spec(v),
{
    (v / 256) as u8
}

/// Low byte of a 16-bit number.
pub fn lo8(v: u16) -> (r: u8)
    ensures
        r == lo8_spec(v),
{
    (v % 256) as u8
}

/// Writing a number as two bytes and reading them back gives the number.
pub proof fn lemma_be16_of_bytes(v: u16)
    ensures
        be16_spec(hi8_spec(v), lo8_spec(v)) == v,
{
}

/// Sum of the big-endian 16-bit words of `data`; a final odd byte is the high
/// byte of a word.
pub open spec fn word_sum(data: Seq<u8>) -> nat
    decreases data.len(),
{
    if data.len() == 0 {
        0
    } else if data.len() == 1 {
        (data[0] * 256) as nat
    } else {
        be16_spec(data[0], data[1]) as nat + word_sum(data.skip(2))
    }
}

/// A sum folded to 16 bits with end-around carry: the one's-complement value
/// of `s`, which is zero only for the sum zero.
pub open spec fn fold16(s: nat) -> u16 {
    if s == 0 {
        0
    } else {
        ((s - 1) % 65535 + 1) as u16
    }
}

/// The Internet checksum of `data`: the complement of its folded word sum.
pub open spec fn checksum_spec(data: Seq<u8>) -> u16 {
    (0xFFFF - fold16(word_sum(data))) as u16
}

/// The fold of `rest` added to a running sum.
pub open spec fn fold_from(sum: u16, rest: nat) -> u16 {
    fold16(sum as nat + rest)
}

/// Whether `sum` can stand for `total` in front of everything still to come.
pub open spec fn stands_for(sum: u16, total: nat) -> bool {
    forall|rest: nat| #[trigger] fold_from(sum, rest) == fold16(total + rest)
}

/// Taking 65535 off a sum that stays positive does not change its fold.
pub proof fn lemma_fold16_carry(s: nat)
    requires
        s > 65535,
    ensures
        fold16((s - 65535) as nat) == fold16(s),
{
    lemma_mod_multiples_vanish(1, s - 65536, 65535);
    assert(65535 * 1 + (s - 65536) == s - 1);
}

/// A sum that fits 16 bits is its own fold.
pub proof fn lemma_fold16_small(s: nat)
    requires
        s <= 65535,
    ensures
        fold16(s) == s,
{
}

/// Word sums of concatenated data add up when the first part has even length.
pub proof fn lemma_word_sum_concat(a: Seq<u8>, b: Seq<u8>)
    requires
        a.len() % 2 == 0,
    ensures
        word_sum(a + b) == word_sum(a) + word_sum(b),
    decreases a.len(),
{
    if a.len() == 0 {
        assert(a + b =~= b);
    } else {
        assert((a + b).skip(2) =~= a.skip(2) + b);
        lemma_word_sum_concat(a.skip(2), b);
    }
}

/// A word sum is at most 65535 for each begun word.
pub proof fn lemma_word_sum_bound(data: Seq<u8>)
    ensures
        word_sum(data) <= 65535 * ((data.len() + 1) / 2),
    decreases data.len(),
{
    if data.len() >= 2 {
        lemma_word_sum_bound(data.skip(2));
    }
}

/// What a running sum stands for is known by its fold.
pub proof fn lemma_stands_for_fold(sum: u16, total: nat)
    requires
        stands_for(sum, total),
    ensures
        sum == fold16(total),
{
    assert(fold_from(sum, 0) == fold16(total + 0));
    lemma_fold16_small(sum as nat);
}

/// One's-complement addition of a 16-bit word (end-around carry).
pub(crate) fn add16(sum: u16, word: u16, Ghost(total): Ghost<nat>) -> (r: u16)
    requires
        stands_for(sum, total),
    ensures
        stands_for(r, total + word as nat),
{
    let wide: u32 = sum as u32 + word as u32;
    let r: u16 = if wide > 65535 {
        (wide - 65535) as u16
    } else {
        wide as u16
    };
    proof {
        assert forall|rest: nat| #[trigger]
            fold_from(r, rest) == fold16(total + word as nat + rest) by {
            assert(fold_from(sum, word as nat + rest) == fold16(total + (word as nat + rest)));
            if wide > 65535 {
                lemma_fold16_carry((wide + rest) as nat);
            }
        }
    }
    r
}

/// Folds the words of `data` into a running one's-complement sum.
pub(crate) fn sum_words(start: u16, data: &[u8], Ghost(total): Ghost<nat>) -> (r: u16)
    requires
        stands_for(start, total),
    ensures
        stands_for(r, total + word_sum(data@)),
{
    let mut sum: u16 = start;
    let mut i: usize = 0;
    let ghost mut done: nat = 0;
    proof {
        assert(data@.skip(0) =~= data@);
    }
    while data.len() - i >= 2
        invariant
            i <= data.len(),
            done + word_sum(data@.skip(i as int)) == word_sum(data@),
            stands_for(sum, total + done),
        decreases data.len() - i,
    {
        let word: u16 = be16(data[i], data[i + 1]);
        sum = add16(sum, word, Ghost(total + done));
        proof {
            assert(data@.skip(i as int).skip(2) =~= data@.skip(i + 2));
            done = done + word as nat;
        }
        i = i + 2;
    }
    if i < data.len() {
        let word: u16 = be16(data[i], 0);
        sum = add16(sum, word, Ghost(total + done));
        assert(word_sum(data@.skip(i as int)) == word as nat);
    } else {
        assert(word_sum(data@.skip(i as int)) == 0);
    }
    sum
}

/// Numbers are read and written with the high byte first.
pub proof fn law_big_endian(
    a: u8,
    b: u8,
    c: u8,
    d: u8,
    v: u16,
    two: u16,
    four: u32,
    high: u8,
    low: u8,
)
    requires
        call_ensures(be16, (a, b), two),
        call_ensures(be32, (a, b, c, d), four),
        call_ensures(hi8, (v,), high),
        call_ensures(lo8, (v,), low),
    ensures
        two == a * 256 + b,
        four == a * 16777216 + b * 65536 + c * 256 + d,
        high * 256 + low == v,
        be16_spec(a, b) == a * 256 + b,
        be32_spec(a, b, c, d) == a * 16777216 + b * 65536 + c * 256 + d,
        hi8_spec(v) * 256 + lo8_spec(v) == v,
{
}

} // verus!
