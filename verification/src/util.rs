//! Byte-level utilities shared by the binary decoders: fixed-size chunking
//! and little/big-endian views of 4-byte words.

use vstd::prelude::*;
use vstd::arithmetic::div_mod::lemma_fundamental_div_mod_converse;

verus! {

/// The 4-byte word at word index `i` of `b`, read little-endian.
pub open spec fn word_le(b: Seq<u8>, i: int) -> u32
    recommends
        0 <= i,
        4 * i + 4 <= b.len(),
{
    (b[4 * i] + b[4 * i + 1] * 0x100 + b[4 * i + 2] * 0x1_0000 + b[4 * i + 3] * 0x100_0000) as u32
}

/// The 4-byte word at word index `i` of `b`, read big-endian.
pub open spec fn word_be(b: Seq<u8>, i: int) -> u32
    recommends
        0 <= i,
        4 * i + 4 <= b.len(),
{
    (b[4 * i + 3] + b[4 * i + 2] * 0x100 + b[4 * i + 1] * 0x1_0000 + b[4 * i] * 0x100_0000) as u32
}

/// `b` with the bytes of every 4-byte word reversed: the buffer as it reads
/// under the opposite byte order.
pub open spec fn swapped_words(b: Seq<u8>) -> Seq<u8>
    recommends
        b.len() % 4 == 0,
{
    Seq::new(b.len(), |k: int| b[4 * (k / 4) + (3 - k % 4)])
}

/// Byte `j` of word `q` of the reversed buffer is byte `3 - j` of word `q`
/// of the original.
pub proof fn lemma_swapped_byte(b: Seq<u8>, q: int, j: int)
    requires
        0 <= q,
        0 <= j < 4,
        4 * q + 4 <= b.len(),
    ensures
        swapped_words(b)[4 * q + j] == b[4 * q + (3 - j)],
{
    lemma_fundamental_div_mod_converse(4 * q + j, 4, q, j);
}

/// Reversing every word is an involution: doing it twice restores the buffer.
pub proof fn lemma_swapped_words_involutive(b: Seq<u8>)
    requires
        b.len() % 4 == 0,
    ensures
        swapped_words(swapped_words(b)) =~= b,
{
    let s = swapped_words(b);
    assert forall|k: int| 0 <= k < b.len() implies #[trigger] swapped_words(s)[k] == b[k] by {
        let q = k / 4;
        let j = k % 4;
        vstd::arithmetic::div_mod::lemma_fundamental_div_mod(k, 4);
        lemma_swapped_byte(s, q, j);
        lemma_swapped_byte(b, q, 3 - j);
    }
}

/// Under the reversed buffer, a little-endian read sees what a big-endian
/// read saw in the original, and the other way round.
pub proof fn lemma_swapped_word_reads(b: Seq<u8>, i: int)
    requires
        0 <= i,
        4 * i + 4 <= b.len(),
        b.len() % 4 == 0,
    ensures
        word_le(swapped_words(b), i) == word_be(b, i),
        word_be(swapped_words(b), i) == word_le(b, i),
{
    lemma_swapped_byte(b, i, 0);
    lemma_swapped_byte(b, i, 1);
    lemma_swapped_byte(b, i, 2);
    lemma_swapped_byte(b, i, 3);
}

/// The little-endian word at index `i` of `data`.
pub fn read_word_le(data: &Vec<u8>, i: usize) -> (w: u32)
    requires
        4 * i + 4 <= data@.len(),
    ensures
        w == word_le(data@, i as int),
{
    let _len = data.len();
    let b0 = data[4 * i] as u32;
    let b1 = data[4 * i + 1] as u32;
    let b2 = data[4 * i + 2] as u32;
    let b3 = data[4 * i + 3] as u32;
    b0 + b1 * 0x100 + b2 * 0x1_0000 + b3 * 0x100_0000
}

/// The big-endian word at index `i` of `data`.
pub fn read_word_be(data: &Vec<u8>, i: usize) -> (w: u32)
    requires
        4 * i + 4 <= data@.len(),
    ensures
        w == word_be(data@, i as int),
{
    let _len = data.len();
    let b0 = data[4 * i] as u32;
    let b1 = data[4 * i + 1] as u32;
    let b2 = data[4 * i + 2] as u32;
    let b3 = data[4 * i + 3] as u32;
    b3 + b2 * 0x100 + b1 * 0x1_0000 + b0 * 0x100_0000
}

/// Reverses the bytes of every 4-byte word of `data` in place.
pub fn swap_word_bytes(data: &mut Vec<u8>)
    requires
        old(data)@.len() % 4 == 0,
    ensures
        final(data)@ =~= swapped_words(old(data)@),
{
    let ghost orig = data@;
    let n = data.len();
    let mut i: usize = 0;
    while i < n
        invariant
            data@.len() == n,
            orig.len() == n,
            n % 4 == 0,
            i % 4 == 0,
            i <= n,
            forall|k: int| 0 <= k < i ==> data@[k] == swapped_words(orig)[k],
            forall|k: int| i <= k < n ==> data@[k] == orig[k],
        decreases n - i,
    {
        proof {
            assert(i + 4 <= n) by (nonlinear_arith)
                requires
                    i < n,
                    i % 4 == 0,
                    n % 4 == 0,
            ;
        }
        let b0 = data[i];
        let b1 = data[i + 1];
        let b2 = data[i + 2];
        let b3 = data[i + 3];
        data.set(i, b3);
        data.set(i + 1, b2);
        data.set(i + 2, b1);
        data.set(i + 3, b0);
        proof {
            let q = i as int / 4;
            vstd::arithmetic::div_mod::lemma_fundamental_div_mod(i as int, 4);
            lemma_swapped_byte(orig, q, 0);
            lemma_swapped_byte(orig, q, 1);
            lemma_swapped_byte(orig, q, 2);
            lemma_swapped_byte(orig, q, 3);
        }
        i = i + 4;
    }
}

/// Splits `data` into consecutive `N`-byte chunks, dropping any partial
/// chunk at the end.
pub fn to_fixed_chunks<const N: usize>(data: Vec<u8>) -> (r: Vec<[u8; N]>)
    requires
        N >= 1,
    ensures
        r@.len() == data@.len() as int / N as int,
        forall|i: int, j: int|
            0 <= i < r@.len() && 0 <= j < N ==> r@[i]@[j] == data@[N * i + j],
{
    let n = data.len();
    let mut r: Vec<[u8; N]> = Vec::new();
    let mut i: usize = 0;
    proof {
        assert(r@.len() * (N as int) == 0) by (nonlinear_arith)
            requires
                r@.len() == 0,
        ;
    }
    while i < n && n - i >= N
        invariant
            n == data@.len(),
            N >= 1,
            i <= n,
            i as int == r@.len() * (N as int),
            forall|a: int, j: int|
                0 <= a < r@.len() && 0 <= j < N ==> r@[a]@[j] == data@[N * a + j],
        decreases n - i,
    {
        let mut chunk: [u8; N] = [0u8; N];
        let mut j: usize = 0;
        while j < N
            invariant
                N >= 1,
                j <= N,
                i + N <= n,
                n == data@.len(),
                forall|k: int| 0 <= k < j ==> chunk@[k] == data@[i + k],
            decreases N - j,
        {
            chunk[j] = data[i + j];
            j = j + 1;
        }
        let ghost c = r@.len() as int;
        r.push(chunk);
        proof {
            assert forall|a: int, j: int|
                0 <= a < r@.len() && 0 <= j < N implies #[trigger] r@[a]@[j] == data@[N * a
                + j] by {
                if a == c {
                    assert(N * a == i) by (nonlinear_arith)
                        requires
                            i == c * (N as int),
                            a == c,
                    ;
                }
            }
            assert((c + 1) * (N as int) == i + N) by (nonlinear_arith)
                requires
                    i == c * (N as int),
            ;
        }
        i = i + N;
    }
    proof {
        lemma_fundamental_div_mod_converse(n as int, N as int, r@.len() as int, n - i);
    }
    r
}

} // verus!
