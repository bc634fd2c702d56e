//! Password hashing and salt derivation.
//!
//! The digest itself comes from the sha2 crate through one trusted
//! wrapper; everything around it — input assembly, hex encoding, the
//! comparison — is verified.

use vstd::prelude::*;
use vstd::string::*;
use vstd::utf8::encode_utf8;
use sha2::Digest;
use crate::ids::Identity;
use crate::strutil::{hex_encode, hex_of_bytes, str_eq};

verus! {

/// The SHA-256 digest of a byte string.
pub uninterp spec fn sha256_of(data: Seq<u8>) -> Seq<u8>;

/// Relies on sha2::Sha256: the digest is a pure function of the input
/// bytes and is 32 bytes long (SHA-256, FIPS 180-4).
#[verifier::external_body]
fn sha256_digest(data: &Vec<u8>) -> (r: Vec<u8>)
    ensures
        r@ == sha256_of(data@),
        r@.len() == 32,
{
    sha2::Sha256::digest(data.as_slice()).to_vec()
}

/// The first `n` little-endian base-256 digits of a number.
pub open spec fn le_bytes(v: nat, n: nat) -> Seq<u8>
    decreases n,
{
    if n == 0 {
        Seq::<u8>::empty()
    } else {
        seq![(v % 256) as u8] + le_bytes(v / 256, (n - 1) as nat)
    }
}

/// Appends the first `n` little-endian base-256 digits of `v` to `out`.
fn push_le_bytes(out: &mut Vec<u8>, v: u128, n: usize)
    ensures
        final(out)@ == old(out)@ + le_bytes(v as nat, n as nat),
{
    let mut current: u128 = v;
    let mut i: usize = 0;
    while i < n
        invariant
            0 <= i <= n,
            out@ + le_bytes(current as nat, (n - i) as nat) == old(out)@ + le_bytes(
                v as nat,
                n as nat,
            ),
        decreases n - i,
    {
        proof {
            assert(le_bytes(current as nat, (n - i) as nat) == seq![
                (current as nat % 256) as u8,
            ] + le_bytes(current as nat / 256, (n - i - 1) as nat));
        }
        out.push((current % 256) as u8);
        current = current / 256;
        i = i + 1;
        proof {
            assert(out@ + le_bytes(current as nat, (n - i) as nat) =~= old(out)@ + le_bytes(
                v as nat,
                n as nat,
            ));
        }
    }
    proof {
        assert(le_bytes(current as nat, 0) =~= Seq::<u8>::empty());
        assert(out@ + Seq::<u8>::empty() =~= out@);
    }
}

/// The bytes hashed to derive a password hash: the password, the stored
/// salt, and the server-side pepper, in order.
pub open spec fn password_digest_input(password: Seq<char>, salt: Seq<char>) -> Seq<u8> {
    encode_utf8(password) + encode_utf8(salt) + encode_utf8("mmo_server_secret_salt"@)
}

/// The stored form of a password: the lowercase hex of the SHA-256 digest
/// of the password, the salt, and the server-side pepper.
pub open spec fn password_hash_of(password: Seq<char>, salt: Seq<char>) -> Seq<char> {
    hex_of_bytes(sha256_of(password_digest_input(password, salt)))
}

/// Hashes a password with the given salt and the server-side pepper,
/// returning the digest as 64 lowercase hex characters.
pub fn hash_password(password: &str, salt: &str) -> (r: String)
    ensures
        r@ == password_hash_of(password@, salt@),
        r@.len() == 64,
{
    let mut input: Vec<u8> = Vec::new();
    input.extend_from_slice(password.as_bytes());
    input.extend_from_slice(salt.as_bytes());
    input.extend_from_slice("mmo_server_secret_salt".as_bytes());
    proof {
        assert(input@ =~= password_digest_input(password@, salt@));
    }
    let digest = sha256_digest(&input);
    hex_encode(&digest)
}

/// Checks a password against a stored hash and salt: true exactly when
/// hashing the password with that salt reproduces the stored hash.
pub fn verify_password(password: &str, stored_hash: &str, salt: &str) -> (r: bool)
    ensures
        r == (stored_hash@ == password_hash_of(password@, salt@)),
{
    let computed = hash_password(password, salt);
    str_eq(computed.as_str(), stored_hash)
}

/// The bytes hashed to derive a salt: the identity, the timestamp, and a
/// fixed key, in order.
pub open spec fn salt_digest_input(identity: Identity, timestamp: u64) -> Seq<u8> {
    le_bytes(identity.bits as nat, 16) + le_bytes(timestamp as nat, 8) + encode_utf8(
        "salt_generation_key"@,
    )
}

/// The salt derived for an identity and a timestamp: the first 16 hex
/// characters of the digest of the two and a fixed key.
pub open spec fn salt_of(identity: Identity, timestamp: u64) -> Seq<char> {
    hex_of_bytes(sha256_of(salt_digest_input(identity, timestamp))).subrange(0, 16)
}

/// Derives a 16-character salt from the caller's identity and the call
/// timestamp.
pub fn generate_salt(identity: &Identity, timestamp: u64) -> (r: String)
    ensures
        r@ == salt_of(*identity, timestamp),
        r@.len() == 16,
{
    let mut input: Vec<u8> = Vec::new();
    push_le_bytes(&mut input, identity.bits, 16);
    push_le_bytes(&mut input, timestamp as u128, 8);
    input.extend_from_slice("salt_generation_key".as_bytes());
    proof {
        assert(input@ =~= salt_digest_input(*identity, timestamp));
    }
    let digest = sha256_digest(&input);
    let hex = hex_encode(&digest);
    let head = hex.as_str().substring_char(0, 16);
    head.to_owned()
}

} // verus!
