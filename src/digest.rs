//! Block digests: the byte encoding of a block's fields, the SHA-256 oracle
//! applied to it, and the leading-zero difficulty predicate.

use sha2::Digest;
use vstd::prelude::*;
use vstd::utf8::encode_utf8;

verus! {

/// The lowercase hex rendering of the SHA-256 digest of `bytes`.
pub uninterp spec fn sha256_hex_of(bytes: Seq<u8>) -> Seq<char>;

/// A character of the lowercase hex alphabet.
pub open spec fn is_lower_hex_digit(c: char) -> bool {
    ('0' <= c && c <= '9') || ('a' <= c && c <= 'f')
}

/// Relies on sha2::Sha256::digest and generic-array's `LowerHex` rendering of
/// its 32-byte output: the result depends on the bytes alone and is two
/// lowercase hex digits per byte.
#[verifier::external_body]
fn sha256_hex(bytes: &[u8]) -> (r: String)
    ensures
        r@ == sha256_hex_of(bytes@),
        r@.len() == 64,
        forall|i: int| 0 <= i < r@.len() ==> is_lower_hex_digit(#[trigger] r@[i]),
{
    format!("{:x}", sha2::Sha256::digest(bytes))
}

/// ASCII decimal digits of `n`, most significant first, without leading zeros.
pub open spec fn decimal(n: nat) -> Seq<u8>
    decreases n,
{
    if n < 10 {
        seq![(n + 48) as u8]
    } else {
        decimal(n / 10).push((n % 10 + 48) as u8)
    }
}

/// ASCII decimal rendering of a signed integer, with a leading `-` when negative.
pub open spec fn signed_decimal(n: int) -> Seq<u8> {
    if n < 0 {
        seq![45u8] + decimal((-n) as nat)
    } else {
        decimal(n as nat)
    }
}

/// The bytes that are hashed for a block: its fields rendered one after the
/// other with no separator.
pub open spec fn block_content(
    index: u64,
    timestamp: i64,
    data: Seq<char>,
    previous_hash: Seq<char>,
    nonce: u64,
    difficulty: u64,
) -> Seq<u8> {
    decimal(index as nat) + signed_decimal(timestamp as int) + encode_utf8(data) + encode_utf8(
        previous_hash,
    ) + decimal(nonce as nat) + decimal(difficulty as nat)
}

/// The digest of a block with the given fields.
pub open spec fn block_digest(
    index: u64,
    timestamp: i64,
    data: Seq<char>,
    previous_hash: Seq<char>,
    nonce: u64,
    difficulty: u64,
) -> Seq<char> {
    sha256_hex_of(block_content(index, timestamp, data, previous_hash, nonce, difficulty))
}

/// Some `u64` nonce gives a block with these fields a digest that satisfies
/// its difficulty.
pub open spec fn solvable(
    index: u64,
    timestamp: i64,
    data: Seq<char>,
    previous_hash: Seq<char>,
    difficulty: u64,
) -> bool {
    exists|n: u64|
        meets_difficulty(
            #[trigger] block_digest(index, timestamp, data, previous_hash, n, difficulty),
            difficulty as nat,
        )
}

/// `hash` begins with at least `difficulty` zero characters.
pub open spec fn meets_difficulty(hash: Seq<char>, difficulty: nat) -> bool {
    &&& difficulty <= hash.len()
    &&& forall|i: int| 0 <= i < difficulty ==> hash[i] == '0'
}

fn push_decimal(out: &mut Vec<u8>, n: u64)
    ensures
        final(out)@ == old(out)@ + decimal(n as nat),
    decreases n,
{
    if n >= 10 {
        push_decimal(out, n / 10);
    }
    out.push((n % 10) as u8 + 48);
    assert(final(out)@ =~= old(out)@ + decimal(n as nat));
}

fn push_signed_decimal(out: &mut Vec<u8>, n: i64)
    ensures
        final(out)@ == old(out)@ + signed_decimal(n as int),
{
    if n < 0 {
        out.push(45u8);
        let magnitude: u64 = (0i128 - n as i128) as u64;
        push_decimal(out, magnitude);
        assert(final(out)@ =~= old(out)@ + signed_decimal(n as int));
    } else {
        push_decimal(out, n as u64);
    }
}

fn push_bytes(out: &mut Vec<u8>, bytes: &[u8])
    ensures
        final(out)@ == old(out)@ + bytes@,
{
    let ghost start = out@;
    let mut i: usize = 0;
    while i < bytes.len()
        invariant
            0 <= i <= bytes@.len(),
            out@ == start + bytes@.subrange(0, i as int),
        decreases bytes@.len() - i,
    {
        out.push(bytes[i]);
        i = i + 1;
        assert(out@ =~= start + bytes@.subrange(0, i as int));
    }
    assert(bytes@.subrange(0, i as int) =~= bytes@);
}

/// The bytes hashed for a block with the given fields.
pub fn encode_block(
    index: u64,
    timestamp: i64,
    data: &str,
    previous_hash: &str,
    nonce: u64,
    difficulty: u64,
) -> (r: Vec<u8>)
    ensures
        r@ == block_content(index, timestamp, data@, previous_hash@, nonce, difficulty),
{
    let mut out: Vec<u8> = Vec::new();
    push_decimal(&mut out, index);
    push_signed_decimal(&mut out, timestamp);
    push_bytes(&mut out, data.as_bytes());
    push_bytes(&mut out, previous_hash.as_bytes());
    push_decimal(&mut out, nonce);
    push_decimal(&mut out, difficulty);
    assert(out@ =~= block_content(index, timestamp, data@, previous_hash@, nonce, difficulty));
    out
}

/// The lowercase hex SHA-256 digest of a block with the given fields.
pub fn calculate_hash(
    index: u64,
    timestamp: i64,
    data: &str,
    previous_hash: &str,
    nonce: u64,
    difficulty: u64,
) -> (r: String)
    ensures
        r@ == block_digest(index, timestamp, data@, previous_hash@, nonce, difficulty),
        r@.len() == 64,
        forall|i: int| 0 <= i < r@.len() ==> is_lower_hex_digit(#[trigger] r@[i]),
{
    let content = encode_block(index, timestamp, data, previous_hash, nonce, difficulty);
    sha256_hex(content.as_slice())
}

/// Whether `hash` begins with at least `difficulty` zero characters.
pub fn has_leading_zeros(hash: &str, difficulty: u64) -> (r: bool)
    ensures
        r == meets_difficulty(hash@, difficulty as nat),
{
    let len = hash.unicode_len();
    if (len as u64) < difficulty {
        return false;
    }
    let mut i: usize = 0;
    while (i as u64) < difficulty
        invariant
            i <= difficulty,
            difficulty <= hash@.len(),
            len == hash@.len(),
            forall|j: int| 0 <= j < i ==> hash@[j] == '0',
        decreases difficulty - i,
    {
        if hash.get_char(i) != '0' {
            return false;
        }
        i = i + 1;
    }
    true
}

} // verus!
