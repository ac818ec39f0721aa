//! The code as bytes.

use vstd::prelude::*;

verus! {

/// The word read as an unsigned number of 64 bits, in two's complement.
pub open spec fn unsigned(word: i64) -> int {
    if word >= 0 {
        word as int
    } else {
        word + 0x1_0000_0000_0000_0000
    }
}

/// The weight of the `k`-th byte of a word, the first byte being the most
/// significant: 256 to the power of 7 - `k`.
pub open spec fn place(k: int) -> int {
    if k == 0 {
        0x100_0000_0000_0000
    } else if k == 1 {
        0x1_0000_0000_0000
    } else if k == 2 {
        0x100_0000_0000
    } else if k == 3 {
        0x1_0000_0000
    } else if k == 4 {
        0x100_0000
    } else if k == 5 {
        0x1_0000
    } else if k == 6 {
        0x100
    } else {
        1
    }
}

/// The `k`-th of the eight bytes of a word, the most significant first.
pub open spec fn byte_of(word: i64, k: int) -> u8 {
    ((unsigned(word) / place(k)) % 256) as u8
}

/// The code as bytes: the eight bytes of each word, in the order of the
/// words, and nothing else.
pub open spec fn serialize(code: Seq<i64>) -> Seq<u8> {
    Seq::new(8 * code.len(), |i: int| byte_of(code[i / 8], i % 8))
}

/// A word is told by its eight bytes.
pub proof fn lemma_bytes_determine_word(a: i64, b: i64)
    requires
        forall|k: int| 0 <= k < 8 ==> byte_of(a, k) == byte_of(b, k),
    ensures
        a == b,
{
    let x = a as u64;
    let y = b as u64;
    assert(x as int == unsigned(a)) by (bit_vector)
        requires
            x == a as u64,
    ;
    assert(y as int == unsigned(b)) by (bit_vector)
        requires
            y == b as u64,
    ;
    assert((x / 0x100_0000_0000_0000) % 256 == (y / 0x100_0000_0000_0000) % 256) by {
        assert(byte_of(a, 0) == byte_of(b, 0));
    }
    assert((x / 0x1_0000_0000_0000) % 256 == (y / 0x1_0000_0000_0000) % 256) by {
        assert(byte_of(a, 1) == byte_of(b, 1));
    }
    assert((x / 0x100_0000_0000) % 256 == (y / 0x100_0000_0000) % 256) by {
        assert(byte_of(a, 2) == byte_of(b, 2));
    }
    assert((x / 0x1_0000_0000) % 256 == (y / 0x1_0000_0000) % 256) by {
        assert(byte_of(a, 3) == byte_of(b, 3));
    }
    assert((x / 0x100_0000) % 256 == (y / 0x100_0000) % 256) by {
        assert(byte_of(a, 4) == byte_of(b, 4));
    }
    assert((x / 0x1_0000) % 256 == (y / 0x1_0000) % 256) by {
        assert(byte_of(a, 5) == byte_of(b, 5));
    }
    assert((x / 0x100) % 256 == (y / 0x100) % 256) by {
        assert(byte_of(a, 6) == byte_of(b, 6));
    }
    assert(x % 256 == y % 256) by {
        assert(byte_of(a, 7) == byte_of(b, 7));
    }
    assert(x == y) by (bit_vector)
        requires
            (x / 0x100_0000_0000_0000u64) % 256u64 == (y / 0x100_0000_0000_0000u64) % 256u64,
            (x / 0x1_0000_0000_0000u64) % 256u64 == (y / 0x1_0000_0000_0000u64) % 256u64,
            (x / 0x100_0000_0000u64) % 256u64 == (y / 0x100_0000_0000u64) % 256u64,
            (x / 0x1_0000_0000u64) % 256u64 == (y / 0x1_0000_0000u64) % 256u64,
            (x / 0x100_0000u64) % 256u64 == (y / 0x100_0000u64) % 256u64,
            (x / 0x1_0000u64) % 256u64 == (y / 0x1_0000u64) % 256u64,
            (x / 0x100u64) % 256u64 == (y / 0x100u64) % 256u64,
            x % 256u64 == y % 256u64,
    ;
    assert(a == b) by (bit_vector)
        requires
            a as u64 == b as u64,
    ;
}

/// The bytes of a program tell its code: two programs that are written out
/// as the same bytes are the same program.
pub proof fn law_bytes_determine_code(a: Seq<i64>, b: Seq<i64>)
    requires
        serialize(a) == serialize(b),
    ensures
        a == b,
{
    assert(serialize(a).len() == 8 * a.len());
    assert(serialize(b).len() == 8 * b.len());
    assert forall|i: int| 0 <= i < a.len() implies a[i] == b[i] by {
        assert forall|k: int| 0 <= k < 8 implies byte_of(a[i], k) == byte_of(b[i], k) by {
            let j = 8 * i + k;
            assert(j / 8 == i && j % 8 == k);
            assert(serialize(a)[j] == byte_of(a[j / 8], j % 8));
            assert(serialize(b)[j] == byte_of(b[j / 8], j % 8));
        }
        lemma_bytes_determine_word(a[i], b[i]);
    }
    assert(a =~= b);
}

/// The eight bytes of `word`, the most significant first.
pub fn word_bytes(word: i64) -> (bytes: [u8; 8])
    ensures
        forall|k: int| 0 <= k < 8 ==> bytes[k] == byte_of(word, k),
{
    let u: u64 = #[verifier::truncate] (word as u64);
    assert(u as int == unsigned(word)) by (bit_vector)
        requires
            u == word as u64,
    ;
    let b0: u8 = #[verifier::truncate] ((u >> 56) as u8);
    let b1: u8 = #[verifier::truncate] ((u >> 48) as u8);
    let b2: u8 = #[verifier::truncate] ((u >> 40) as u8);
    let b3: u8 = #[verifier::truncate] ((u >> 32) as u8);
    let b4: u8 = #[verifier::truncate] ((u >> 24) as u8);
    let b5: u8 = #[verifier::truncate] ((u >> 16) as u8);
    let b6: u8 = #[verifier::truncate] ((u >> 8) as u8);
    let b7: u8 = #[verifier::truncate] (u as u8);
    assert(b0 == (u / 0x100_0000_0000_0000) % 256) by (bit_vector)
        requires
            b0 == (u >> 56) as u8,
    ;
    assert(b1 == (u / 0x1_0000_0000_0000) % 256) by (bit_vector)
        requires
            b1 == (u >> 48) as u8,
    ;
    assert(b2 == (u / 0x100_0000_0000) % 256) by (bit_vector)
        requires
            b2 == (u >> 40) as u8,
    ;
    assert(b3 == (u / 0x1_0000_0000) % 256) by (bit_vector)
        requires
            b3 == (u >> 32) as u8,
    ;
    assert(b4 == (u / 0x100_0000) % 256) by (bit_vector)
        requires
            b4 == (u >> 24) as u8,
    ;
    assert(b5 == (u / 0x1_0000) % 256) by (bit_vector)
        requires
            b5 == (u >> 16) as u8,
    ;
    assert(b6 == (u / 0x100) % 256) by (bit_vector)
        requires
            b6 == (u >> 8) as u8,
    ;
    assert(b7 == u % 256) by (bit_vector)
        requires
            b7 == u as u8,
    ;
    [b0, b1, b2, b3, b4, b5, b6, b7]
}

/// Writes the code out as bytes.
pub fn to_bytes(code: &Vec<i64>) -> (bytes: Vec<u8>)
    ensures
        bytes@ == serialize(code@),
{
    let mut bytes: Vec<u8> = Vec::new();
    let n: usize = code.len();
    let mut i: usize = 0;
    while i < n
        invariant
            n == code.len(),
            i <= n,
            bytes@.len() == 8 * i,
            forall|j: int| 0 <= j < 8 * i ==> bytes@[j] == byte_of(code@[j / 8], j % 8),
        decreases n - i,
    {
        let word = word_bytes(code[i]);
        let ghost before = bytes@;
        bytes.push(word[0]);
        bytes.push(word[1]);
        bytes.push(word[2]);
        bytes.push(word[3]);
        bytes.push(word[4]);
        bytes.push(word[5]);
        bytes.push(word[6]);
        bytes.push(word[7]);
        assert forall|j: int| 0 <= j < 8 * (i + 1) implies bytes@[j] == byte_of(
            code@[j / 8],
            j % 8,
        ) by {
            if j < 8 * i {
                assert(bytes@[j] == before[j]);
            } else {
                assert(j / 8 == i as int);
                assert(bytes@[j] == word[j - 8 * i]);
            }
        }
        i += 1;
    }
    assert(bytes@ =~= serialize(code@));
    bytes
}

} // verus!
