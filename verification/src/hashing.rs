//! Positions on the hash ring: the first eight bytes of a SHA-256 digest,
//! read as a big-endian 64-bit number.

use sha2::{Digest, Sha256};
use vstd::prelude::*;
use vstd::string::StringExecFns;
use vstd::utf8::encode_utf8;

verus! {

/// The SHA-256 digest of `data` (FIPS 180-4), as computed by the `sha2`
/// crate. The function is not defined here: it is only named, so that
/// contracts can say which bytes were hashed.
pub uninterp spec fn sha256(data: Seq<u8>) -> Seq<u8>;

/// Calls `sha2::Sha256::digest`, which feeds `data` to a fresh hasher and
/// finalizes it. Trusted: the 32 bytes returned are the digest named by
/// [`sha256`] for exactly the bytes of `data`.
#[verifier::external_body]
fn sha256_digest(data: &[u8]) -> (digest: [u8; 32])
    ensures
        digest@ == sha256(data@),
{
    Sha256::digest(data).into()
}

/// The number whose big-endian representation is the first eight bytes of
/// `bytes`.
pub open spec fn be_u64(bytes: Seq<u8>) -> u64 {
    (bytes[0] as nat * 0x0100_0000_0000_0000 + bytes[1] as nat * 0x0001_0000_0000_0000
        + bytes[2] as nat * 0x0000_0100_0000_0000 + bytes[3] as nat * 0x0000_0001_0000_0000
        + bytes[4] as nat * 0x0000_0000_0100_0000 + bytes[5] as nat * 0x0000_0000_0001_0000
        + bytes[6] as nat * 0x0000_0000_0000_0100 + bytes[7] as nat) as u64
}

/// The ring position of a byte string.
pub open spec fn position_of(data: Seq<u8>) -> u64 {
    be_u64(sha256(data))
}

/// The ring position of a routing key: its UTF-8 bytes are hashed.
pub open spec fn key_position(key: Seq<char>) -> u64 {
    position_of(encode_utf8(key))
}

/// The ring position of a node: its ordinal, written in decimal, is hashed.
pub open spec fn node_position(id: nat) -> u64 {
    position_of(encode_utf8(decimal(id)))
}

/// The character for one decimal digit.
pub open spec fn digit(d: nat) -> char {
    if d == 0 {
        '0'
    } else if d == 1 {
        '1'
    } else if d == 2 {
        '2'
    } else if d == 3 {
        '3'
    } else if d == 4 {
        '4'
    } else if d == 5 {
        '5'
    } else if d == 6 {
        '6'
    } else if d == 7 {
        '7'
    } else if d == 8 {
        '8'
    } else {
        '9'
    }
}

/// The decimal numeral of `n`, most significant digit first, without
/// leading zeros.
pub open spec fn decimal(n: nat) -> Seq<char>
    decreases n,
{
    if n < 10 {
        seq![digit(n)]
    } else {
        decimal(n / 10).push(digit(n % 10))
    }
}

/// Reads the first eight bytes of a digest as a big-endian number.
pub fn digest_prefix(digest: &[u8; 32]) -> (position: u64)
    ensures
        position == be_u64(digest@),
{
    let b0: u64 = digest[0] as u64;
    let b1: u64 = digest[1] as u64;
    let b2: u64 = digest[2] as u64;
    let b3: u64 = digest[3] as u64;
    let b4: u64 = digest[4] as u64;
    let b5: u64 = digest[5] as u64;
    let b6: u64 = digest[6] as u64;
    let b7: u64 = digest[7] as u64;
    b0 * 0x0100_0000_0000_0000 + b1 * 0x0001_0000_0000_0000 + b2 * 0x0000_0100_0000_0000 + b3
        * 0x0000_0001_0000_0000 + b4 * 0x0000_0000_0100_0000 + b5 * 0x0000_0000_0001_0000 + b6
        * 0x0000_0000_0000_0100 + b7
}

/// The one-character string for a decimal digit.
fn digit_str(d: usize) -> (text: &'static str)
    requires
        d < 10,
    ensures
        text@ == seq![digit(d as nat)],
{
    proof {
        reveal_strlit("0");
        reveal_strlit("1");
        reveal_strlit("2");
        reveal_strlit("3");
        reveal_strlit("4");
        reveal_strlit("5");
        reveal_strlit("6");
        reveal_strlit("7");
        reveal_strlit("8");
        reveal_strlit("9");
    }
    let text: &'static str = if d == 0 {
        "0"
    } else if d == 1 {
        "1"
    } else if d == 2 {
        "2"
    } else if d == 3 {
        "3"
    } else if d == 4 {
        "4"
    } else if d == 5 {
        "5"
    } else if d == 6 {
        "6"
    } else if d == 7 {
        "7"
    } else if d == 8 {
        "8"
    } else {
        "9"
    };
    assert(text@ =~= seq![digit(d as nat)]);
    text
}

/// Writes `n` in decimal.
pub fn to_decimal(n: usize) -> (text: String)
    ensures
        text@ == decimal(n as nat),
    decreases n,
{
    let last: &'static str = digit_str(n % 10);
    if n < 10 {
        last.to_owned()
    } else {
        let mut text: String = to_decimal(n / 10);
        text.append(last);
        text
    }
}

/// The ring position of the bytes `data`.
pub fn hash_bytes(data: &[u8]) -> (position: u64)
    ensures
        position == position_of(data@),
{
    let digest: [u8; 32] = sha256_digest(data);
    digest_prefix(&digest)
}

/// The ring position of the worker with ordinal `id`.
pub fn hash_worker_id(id: usize) -> (position: u64)
    ensures
        position == node_position(id as nat),
{
    let text: String = to_decimal(id);
    hash_bytes(text.as_str().as_bytes())
}

/// The ring position of the client identified by `client_id`.
pub fn hash_client_id(client_id: &str) -> (position: u64)
    ensures
        position == key_position(client_id@),
{
    hash_bytes(client_id.as_bytes())
}

} // verus!
