//! Content identity: the SHA-256 digest of a file's bytes, in lower-case hex,
//! and its length.

use sha2::{Digest, Sha256};
use vstd::prelude::*;

verus! {

/// The SHA-256 digest of `data`, as the `sha2` crate computes it.
pub uninterp spec fn sha256(data: Seq<u8>) -> Seq<u8>;

/// The sixteen hexadecimal digits, lower case.
pub open spec fn hex_digits() -> Seq<char> {
    seq!['0', '1', '2', '3', '4', '5', '6', '7', '8', '9', 'a', 'b', 'c', 'd', 'e', 'f']
}

/// The digit that stands at place `i` of the hex form of `bytes`: the high
/// half of a byte first, then its low half.
pub open spec fn hex_digit_at(bytes: Seq<u8>, i: int) -> char {
    if i % 2 == 0 {
        hex_digits()[(bytes[i / 2] / 16) as int]
    } else {
        hex_digits()[(bytes[i / 2] % 16) as int]
    }
}

/// `bytes` written as lower-case hexadecimal, two digits for each byte.
pub open spec fn hex_of(bytes: Seq<u8>) -> Seq<char> {
    Seq::new(2 * bytes.len(), |i: int| hex_digit_at(bytes, i))
}

/// The identity of `data`: its digest in hex.
pub open spec fn content_hash(data: Seq<u8>) -> Seq<char> {
    hex_of(sha256(data))
}

/// Trusted: calls `sha2::Sha256::digest` (the `Digest` trait's one-shot
/// function) and copies the output array into a vector. Claimed: the result
/// is the digest that [`sha256`] names, and it has the 32 bytes that the
/// crate fixes as SHA-256's output size.
#[verifier::external_body]
fn sha256_digest(data: &[u8]) -> (digest: Vec<u8>)
    ensures
        digest@ == sha256(data@),
        digest@.len() == 32,
{
    Sha256::digest(data).to_vec()
}

/// The hexadecimal digit of a value below sixteen.
fn hex_digit(nibble: u8) -> (digit: &'static str)
    requires
        nibble < 16,
    ensures
        digit@ == seq![hex_digits()[nibble as int]],
{
    proof {
        reveal_strlit("0");
        reveal_strlit("1");
        reveal_strlit("2");
        reveal_strlit("3");
        reveal_strlit("4");
        reveal_strlit("5");
        reveal_strlit("6");
        reveal_strlit("7");
        reveal_strlit("8");
        reveal_strlit("9");
        reveal_strlit("a");
        reveal_strlit("b");
        reveal_strlit("c");
        reveal_strlit("d");
        reveal_strlit("e");
        reveal_strlit("f");
    }
    let digit = match nibble {
        0 => "0",
        1 => "1",
        2 => "2",
        3 => "3",
        4 => "4",
        5 => "5",
        6 => "6",
        7 => "7",
        8 => "8",
        9 => "9",
        10 => "a",
        11 => "b",
        12 => "c",
        13 => "d",
        14 => "e",
        _ => "f",
    };
    assert(digit@ =~= seq![hex_digits()[nibble as int]]);
    digit
}

/// `bytes` in lower-case hexadecimal.
pub fn to_hex(bytes: &[u8]) -> (hex: String)
    ensures
        hex@ == hex_of(bytes@),
        hex@.len() == 2 * bytes@.len(),
{
    let mut hex = String::new();
    let mut i: usize = 0;
    while i < bytes.len()
        invariant
            0 <= i <= bytes@.len(),
            hex@ == hex_of(bytes@.subrange(0, i as int)),
        decreases bytes@.len() - i,
    {
        let byte: u8 = bytes[i];
        let high = hex_digit(byte / 16);
        let low = hex_digit(byte % 16);
        let ghost before = hex@;
        hex.append(high);
        hex.append(low);
        proof {
            let shorter = bytes@.subrange(0, i as int);
            let longer = bytes@.subrange(0, i + 1);
            assert(hex@ == before + high@ + low@);
            assert forall|k: int| 0 <= k < 2 * longer.len() implies #[trigger] hex@[k]
                == hex_digit_at(longer, k) by {
                if k < 2 * i {
                    assert(before[k] == hex_digit_at(shorter, k));
                    assert(shorter[k / 2] == longer[k / 2]);
                } else {
                    assert(longer[k / 2] == byte);
                }
            }
            assert(hex@ =~= hex_of(longer));
        }
        i = i + 1;
    }
    proof {
        assert(bytes@.subrange(0, i as int) =~= bytes@);
    }
    hex
}

/// The content identity of `data`: its SHA-256 digest in lower-case hex, and
/// its length in bytes.
pub fn calculate_hash_size(data: &Vec<u8>) -> (identity: (String, usize))
    ensures
        identity.0@ == content_hash(data@),
        identity.0@.len() == 64,
        identity.1 == data@.len(),
{
    let digest = sha256_digest(data.as_slice());
    let hash = to_hex(digest.as_slice());
    (hash, data.len())
}

} // verus!
