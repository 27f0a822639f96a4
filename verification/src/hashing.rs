//! Salted password hashing: SHA-256 over the password followed by the salt,
//! rendered as lowercase hexadecimal, and random alphanumeric salts.
use vstd::prelude::*;
use vstd::string::*;
use vstd::utf8::encode_utf8;
use sha2::Digest;

use crate::text::{lower_hex, push_char, to_hex_lower, lemma_lower_hex_injective};
use crate::validations::{has_special_char, is_ascii_alphanumeric};

verus! {

// ---------------------------------------------------------------------------
// Trusted items
// ---------------------------------------------------------------------------

/// The SHA-256 digest of a byte string, as the `sha2` crate computes it.
pub uninterp spec fn sha256(data: Seq<u8>) -> Seq<u8>;

/// Calls `sha2::Sha256::digest` (the one-shot form of `new`, `update`,
/// `finalize`) on `data`. Claimed: the result is the digest of `data`,
/// named `sha256`, and has the 32 bytes of SHA-256's output size.
#[verifier::external_body]
fn sha256_digest(data: &[u8]) -> (digest: Vec<u8>)
    ensures
        digest@ == sha256(data@),
        digest@.len() == 32,
{
    sha2::Sha256::digest(data).to_vec()
}

#[verifier::external_type_specification]
#[verifier::external_body]
pub struct ExThreadRng(rand::rngs::ThreadRng);

/// Calls `rand::thread_rng`. Nothing is claimed of the generator it hands out.
#[verifier::external_body]
fn thread_rng() -> (rng: rand::rngs::ThreadRng) {
    rand::thread_rng()
}

/// Calls `rand::Rng::gen_range` on the range `0..bound`, which panics on an
/// empty range. Claimed: the number drawn lies in the range; which number
/// comes out is chance and is not stated.
#[verifier::external_body]
fn gen_index(rng: &mut rand::rngs::ThreadRng, bound: usize) -> (i: usize)
    requires
        bound > 0,
    ensures
        i < bound,
{
    rand::Rng::gen_range(rng, 0..bound)
}

// ---------------------------------------------------------------------------
// Hashing
// ---------------------------------------------------------------------------

/// The stored form of a secret: the lowercase hexadecimal SHA-256 digest of
/// the UTF-8 bytes of the secret followed by the salt.
pub open spec fn hash_hex(secret: Seq<char>, salt: Seq<char>) -> Seq<char> {
    lower_hex(sha256(encode_utf8(secret + salt)))
}

/// Hashes `password` salted with `salt`.
pub fn hash_string(password: &str, salt: &str) -> (hash: String)
    ensures
        hash@ == hash_hex(password@, salt@),
        hash@.len() == 64,
{
    let mut salted = String::from_str(password);
    salted.append(salt);
    let digest = sha256_digest(salted.as_str().as_bytes());
    proof {
        crate::text::lemma_lower_hex_len(digest@);
    }
    to_hex_lower(digest.as_slice())
}

/// A password, salted, hashes to the stored hash.
pub open spec fn verifies(stored_hash: Seq<char>, entered_password: Seq<char>, salt: Seq<char>) -> bool {
    hash_hex(entered_password, salt) == stored_hash
}

/// Whether `entered_password` salted with `salt` hashes to `stored_hash`.
pub fn verify_string(stored_hash: &str, entered_password: &str, salt: &str) -> (ok: bool)
    ensures
        ok == verifies(stored_hash@, entered_password@, salt@),
{
    let entered_hash = hash_string(entered_password, salt);
    let stored = stored_hash.to_owned();
    entered_hash == stored
}

/// A password hashed with a salt verifies against that hash with the same
/// salt: `verify_string` accepts what `hash_string` stored.
pub proof fn lemma_hash_then_verify(password: Seq<char>, salt: Seq<char>)
    ensures
        verifies(hash_hex(password, salt), password, salt),
{
}

/// Two secrets (with their salts) verify against each other's hashes
/// exactly when the SHA-256 digests of their salted bytes agree: the hex
/// rendering neither merges nor splits digests.
pub proof fn lemma_hash_eq_iff_digest_eq(p1: Seq<char>, s1: Seq<char>, p2: Seq<char>, s2: Seq<char>)
    ensures
        (hash_hex(p1, s1) == hash_hex(p2, s2)) <==> (sha256(encode_utf8(p1 + s1)) == sha256(
            encode_utf8(p2 + s2),
        )),
{
    if hash_hex(p1, s1) == hash_hex(p2, s2) {
        lemma_lower_hex_injective(sha256(encode_utf8(p1 + s1)), sha256(encode_utf8(p2 + s2)));
    }
}

// ---------------------------------------------------------------------------
// Salts
// ---------------------------------------------------------------------------

/// Number of characters in a salt.
pub const SALT_LEN: usize = 16;

/// Number of characters a salt is drawn from.
pub const SALT_CHARSET_LEN: usize = 62;

/// The salt alphabet `A..Z`, `a..z`, `0..9`, in that order.
pub open spec fn salt_char(i: int) -> char
    recommends
        0 <= i < 62,
{
    if i < 26 {
        ('A' as int + i) as char
    } else if i < 52 {
        ('a' as int + (i - 26)) as char
    } else {
        ('0' as int + (i - 52)) as char
    }
}

/// The character at position `i` of the salt alphabet.
pub fn salt_char_at(i: usize) -> (c: char)
    requires
        i < SALT_CHARSET_LEN,
    ensures
        c == salt_char(i as int),
{
    let b: u8 = i as u8;
    if b < 26 {
        (65u8 + b) as char
    } else if b < 52 {
        (71u8 + b) as char
    } else {
        (b - 4u8) as char
    }
}

/// The salt spelled by the given positions in the salt alphabet.
pub open spec fn salt_of(indices: Seq<usize>) -> Seq<char> {
    Seq::new(indices.len(), |k: int| salt_char(indices[k] as int))
}

/// The salt whose characters are the alphabet entries at `indices`.
pub fn salt_from_indices(indices: &[usize]) -> (salt: String)
    requires
        forall|k: int| 0 <= k < indices@.len() ==> #[trigger] indices@[k] < SALT_CHARSET_LEN,
    ensures
        salt@ == salt_of(indices@),
{
    let mut salt = String::new();
    let n = indices.len();
    let mut k: usize = 0;
    while k < n
        invariant
            n == indices@.len(),
            0 <= k <= n,
            forall|j: int| 0 <= j < indices@.len() ==> #[trigger] indices@[j] < SALT_CHARSET_LEN,
            salt@ =~= salt_of(indices@.take(k as int)),
        decreases n - k,
    {
        let c = salt_char_at(indices[k]);
        push_char(&mut salt, c);
        k = k + 1;
        assert(salt@ =~= salt_of(indices@.take(k as int)));
    }
    assert(indices@.take(n as int) =~= indices@);
    salt
}

/// A salt: `SALT_LEN` ASCII letters and digits.
pub open spec fn is_salt(s: Seq<char>) -> bool {
    &&& s.len() == SALT_LEN
    &&& forall|k: int| 0 <= k < s.len() ==> is_ascii_alphanumeric(#[trigger] s[k])
}

/// A fresh random salt of `SALT_LEN` alphanumeric characters.
pub fn generate_salt() -> (salt: String)
    ensures
        is_salt(salt@),
        exists|indices: Seq<usize>|
            indices.len() == SALT_LEN && (forall|k: int|
                0 <= k < SALT_LEN ==> #[trigger] indices[k] < SALT_CHARSET_LEN) && salt@
                == salt_of(indices),
{
    let mut rng = thread_rng();
    let mut indices: Vec<usize> = Vec::new();
    let mut k: usize = 0;
    while k < SALT_LEN
        invariant
            0 <= k <= SALT_LEN,
            indices@.len() == k,
            forall|j: int| 0 <= j < indices@.len() ==> #[trigger] indices@[j] < SALT_CHARSET_LEN,
        decreases SALT_LEN - k,
    {
        let i = gen_index(&mut rng, SALT_CHARSET_LEN);
        indices.push(i);
        k = k + 1;
    }
    let salt = salt_from_indices(indices.as_slice());
    assert(salt@.len() == SALT_LEN);
    assert forall|j: int| 0 <= j < salt@.len() implies is_ascii_alphanumeric(#[trigger] salt@[j]) by {
        assert(salt@[j] == salt_char(indices@[j] as int));
    }
    salt
}

/// A salt never holds a special character: `no_special_charachters` finds
/// none in it.
pub proof fn lemma_salt_has_no_special_char(s: Seq<char>)
    requires
        is_salt(s),
    ensures
        !has_special_char(s),
{
}

} // verus!
