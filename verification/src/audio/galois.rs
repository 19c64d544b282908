//! The field over which the parity of audio blocks is computed, and why any
//! four of the six shards of a block determine it.

use vstd::prelude::*;

use crate::audio::fec::{audio_code, present, CodeParams};

verus! {

/// Twice an element of the field of 256 elements with the generating polynomial
/// x^8 + x^4 + x^3 + x^2 + 1.
pub open spec fn doubled(a: u8) -> u8 {
    if a & 0x80 == 0 {
        a << 1
    } else {
        (a << 1) ^ 0x1D
    }
}

/// `term`, if the bit of `b` that `mask` stands for is set, or zero.
pub open spec fn term_for_bit(term: u8, b: u8, mask: u8) -> u8 {
    if b & mask == 0 {
        0
    } else {
        term
    }
}

/// The product of two elements of the field.
pub open spec fn product(a: u8, b: u8) -> u8 {
    term_for_bit(a, b, 0x01) ^ term_for_bit(doubled(a), b, 0x02) ^ term_for_bit(
        doubled(doubled(a)),
        b,
        0x04,
    ) ^ term_for_bit(doubled(doubled(doubled(a))), b, 0x08) ^ term_for_bit(
        doubled(doubled(doubled(doubled(a)))),
        b,
        0x10,
    ) ^ term_for_bit(doubled(doubled(doubled(doubled(doubled(a))))), b, 0x20) ^ term_for_bit(
        doubled(doubled(doubled(doubled(doubled(doubled(a)))))),
        b,
        0x40,
    ) ^ term_for_bit(doubled(doubled(doubled(doubled(doubled(doubled(doubled(a))))))), b, 0x80)
}

/// The sum of the products of the first `n` coefficients from `row` on with the
/// bytes at `k` of the first `n` shards.
pub open spec fn combined(
    coefficients: Seq<u8>,
    row: int,
    shards: Seq<Seq<u8>>,
    k: int,
    n: nat,
) -> u8
    decreases n,
{
    if n == 0 {
        0
    } else {
        combined(coefficients, row, shards, k, (n - 1) as nat) ^ product(
            coefficients[row + n - 1],
            shards[n - 1][k],
        )
    }
}

/// Whether all shards are as long as the first one.
pub open spec fn same_length(shards: Seq<Seq<u8>>) -> bool {
    forall|i: int| 0 <= i < shards.len() ==> #[trigger] shards[i].len() == shards[0].len()
}

/// Whether shards are data and the parity that a code makes of it.
pub open spec fn is_codeword(code: CodeParams, shards: Seq<Seq<u8>>) -> bool {
    &&& shards.len() == code.data_shards + code.parity_shards
    &&& same_length(shards)
    &&& forall|p: int, k: int|
        0 <= p < code.parity_shards && 0 <= k < shards[0].len() ==> #[trigger] parity_holds(
            code,
            shards,
            p,
            k,
        )
}

/// Whether the byte at `k` of a parity shard is what the code makes of the
/// data.
pub open spec fn parity_holds(code: CodeParams, shards: Seq<Seq<u8>>, p: int, k: int) -> bool {
    shards[code.data_shards + p][k] == combined(
        code.parity_rows,
        p * code.data_shards,
        shards,
        k,
        code.data_shards,
    )
}

/// Whether the shards that are there are those of `whole`.
pub open spec fn is_part_of(shards: Seq<Option<Seq<u8>>>, whole: Seq<Seq<u8>>) -> bool {
    &&& shards.len() == whole.len()
    &&& forall|i: int|
        0 <= i < shards.len() ==> (#[trigger] shards[i] matches Some(bytes) ==> bytes == whole[i])
}

/// Whether the shard at `i` is one of the first shards that are there, as many
/// as there are data shards. The data is determined from these.
pub open spec fn is_used(code: CodeParams, shards: Seq<Option<Seq<u8>>>, i: int) -> bool {
    shards[i] is Some && present(shards, i as nat) < code.data_shards
}

/// Whether the shards that are used leave the data open: some codeword other
/// than zero is zero in all of them.
pub open spec fn leaves_data_open(code: CodeParams, shards: Seq<Option<Seq<u8>>>) -> bool {
    exists|word: Seq<Seq<u8>>| #[trigger] is_hidden_word(code, shards, word)
}

/// Whether `word` is a codeword of single bytes that is zero in all shards that
/// are used, but not in all data shards.
pub open spec fn is_hidden_word(
    code: CodeParams,
    shards: Seq<Option<Seq<u8>>>,
    word: Seq<Seq<u8>>,
) -> bool {
    &&& is_codeword(code, word)
    &&& word[0].len() == 1
    &&& forall|i: int|
        0 <= i < word.len() && is_used(code, shards, i) ==> #[trigger] word[i][0] == 0
    &&& exists|j: int| 0 <= j < code.data_shards && #[trigger] word[j][0] != 0
}

/// The first parity byte of an audio block.
pub open spec fn first_parity(a: u8, b: u8, c: u8, d: u8) -> u8 {
    product(0x77, a) ^ product(0x40, b) ^ product(0x38, c) ^ product(0x0e, d)
}

/// The second parity byte of an audio block.
pub open spec fn second_parity(a: u8, b: u8, c: u8, d: u8) -> u8 {
    product(0xc7, a) ^ product(0xa7, b) ^ product(0x0d, c) ^ product(0x6c, d)
}

/// One parity byte that is zero leaves no room for one data byte that is not.
proof fn lemma_one_missing(x: u8)
    ensures
        first_parity(x, 0, 0, 0) == 0 ==> x == 0,
        first_parity(0, x, 0, 0) == 0 ==> x == 0,
        first_parity(0, 0, x, 0) == 0 ==> x == 0,
        first_parity(0, 0, 0, x) == 0 ==> x == 0,
        second_parity(x, 0, 0, 0) == 0 ==> x == 0,
        second_parity(0, x, 0, 0) == 0 ==> x == 0,
        second_parity(0, 0, x, 0) == 0 ==> x == 0,
        second_parity(0, 0, 0, x) == 0 ==> x == 0,
{
    assert(first_parity(x, 0, 0, 0) == 0 ==> x == 0) by (bit_vector);
    assert(first_parity(0, x, 0, 0) == 0 ==> x == 0) by (bit_vector);
    assert(first_parity(0, 0, x, 0) == 0 ==> x == 0) by (bit_vector);
    assert(first_parity(0, 0, 0, x) == 0 ==> x == 0) by (bit_vector);
    assert(second_parity(x, 0, 0, 0) == 0 ==> x == 0) by (bit_vector);
    assert(second_parity(0, x, 0, 0) == 0 ==> x == 0) by (bit_vector);
    assert(second_parity(0, 0, x, 0) == 0 ==> x == 0) by (bit_vector);
    assert(second_parity(0, 0, 0, x) == 0 ==> x == 0) by (bit_vector);
}

/// Two parity bytes that are zero leave no room for two data bytes that are
/// not.
proof fn lemma_two_missing(x: u8, y: u8)
    ensures
        first_parity(x, y, 0, 0) == 0 && second_parity(x, y, 0, 0) == 0 ==> x == 0 && y == 0,
        first_parity(x, 0, y, 0) == 0 && second_parity(x, 0, y, 0) == 0 ==> x == 0 && y == 0,
        first_parity(x, 0, 0, y) == 0 && second_parity(x, 0, 0, y) == 0 ==> x == 0 && y == 0,
        first_parity(0, x, y, 0) == 0 && second_parity(0, x, y, 0) == 0 ==> x == 0 && y == 0,
        first_parity(0, x, 0, y) == 0 && second_parity(0, x, 0, y) == 0 ==> x == 0 && y == 0,
        first_parity(0, 0, x, y) == 0 && second_parity(0, 0, x, y) == 0 ==> x == 0 && y == 0,
{
    assert(first_parity(x, y, 0, 0) == 0 && second_parity(x, y, 0, 0) == 0 ==> x == 0 && y == 0)
        by (bit_vector);
    assert(first_parity(x, 0, y, 0) == 0 && second_parity(x, 0, y, 0) == 0 ==> x == 0 && y == 0)
        by (bit_vector);
    assert(first_parity(x, 0, 0, y) == 0 && second_parity(x, 0, 0, y) == 0 ==> x == 0 && y == 0)
        by (bit_vector);
    assert(first_parity(0, x, y, 0) == 0 && second_parity(0, x, y, 0) == 0 ==> x == 0 && y == 0)
        by (bit_vector);
    assert(first_parity(0, x, 0, y) == 0 && second_parity(0, x, 0, y) == 0 ==> x == 0 && y == 0)
        by (bit_vector);
    assert(first_parity(0, 0, x, y) == 0 && second_parity(0, 0, x, y) == 0 ==> x == 0 && y == 0)
        by (bit_vector);
}

/// The parity bytes of an audio codeword.
proof fn lemma_audio_parity(word: Seq<Seq<u8>>, k: int)
    requires
        is_codeword(audio_code(), word),
        0 <= k < word[0].len(),
    ensures
        word[4][k] == first_parity(word[0][k], word[1][k], word[2][k], word[3][k]),
        word[5][k] == second_parity(word[0][k], word[1][k], word[2][k], word[3][k]),
{
    reveal_with_fuel(combined, 5);
    assert(forall|x: u8| #[trigger] (0u8 ^ x) == x) by (bit_vector);
    assert(parity_holds(audio_code(), word, 0, k));
    assert(parity_holds(audio_code(), word, 1, k));
}

/// Any four shards of an audio block determine its data: no codeword but zero
/// is zero in four places.
pub proof fn lemma_four_shards_suffice(shards: Seq<Option<Seq<u8>>>)
    requires
        shards.len() == audio_code().data_shards + audio_code().parity_shards,
        present(shards, shards.len()) >= audio_code().data_shards,
    ensures
        !leaves_data_open(audio_code(), shards),
{
    reveal_with_fuel(present, 7);
    assert forall|word: Seq<Seq<u8>>| !#[trigger] is_hidden_word(audio_code(), shards, word) by {
        if is_hidden_word(audio_code(), shards, word) {
            lemma_audio_parity(word, 0);
            let a = word[0][0];
            let b = word[1][0];
            let c = word[2][0];
            let d = word[3][0];
            assert(is_used(audio_code(), shards, 0) ==> a == 0);
            assert(is_used(audio_code(), shards, 1) ==> b == 0);
            assert(is_used(audio_code(), shards, 2) ==> c == 0);
            assert(is_used(audio_code(), shards, 3) ==> d == 0);
            assert(is_used(audio_code(), shards, 4) ==> word[4][0] == 0);
            assert(is_used(audio_code(), shards, 5) ==> word[5][0] == 0);
            lemma_one_missing(a);
            lemma_one_missing(b);
            lemma_one_missing(c);
            lemma_one_missing(d);
            lemma_two_missing(a, b);
            lemma_two_missing(a, c);
            lemma_two_missing(a, d);
            lemma_two_missing(b, c);
            lemma_two_missing(b, d);
            lemma_two_missing(c, d);
            assert(a == 0 && b == 0 && c == 0 && d == 0);
            let j = choose|j: int| 0 <= j < audio_code().data_shards && #[trigger] word[j][0] != 0;
            assert(j == 0 || j == 1 || j == 2 || j == 3);
        }
    }
}

} // verus!
