//! The password verifier: a secret is stored as a salted, deliberately
//! expensive digest that carries its own parameters.
//!
//! A digest is ASCII text of five fields joined by dollar signs: memory in
//! KiB, passes and lanes in decimal, then the salt and the derived key in
//! hexadecimal. The key is Argon2id (version 1.3) of the secret under the
//! salt and those parameters. Verifying reads the fields back, derives the
//! key again and compares.

use crate::encoding::{
    constant_time_eq, digits, hex_bytes, hex_decode, hex_encode, hex_text, is_digit,
    is_hex_digit, is_hex_text, lemma_digits_round_trip, lemma_hex_round_trip, lemma_split_joined,
    split_first, split_once, unsigned_decode, unsigned_encode, unsigned_value,
};
use rand::RngCore;
use vstd::prelude::*;
use vstd::utf8::encode_utf8;

verus! {

/// The byte that separates the fields of a digest.
pub const DIGEST_SEPARATOR: u8 = 36;

/// Memory, in KiB, that new digests are derived with.
pub const DEFAULT_MEMORY: u32 = 19456;

/// Passes that new digests are derived with.
pub const DEFAULT_PASSES: u32 = 2;

/// Lanes that new digests are derived with.
pub const DEFAULT_LANES: u32 = 1;

/// Length, in bytes, of the salt of a new digest.
pub const SALT_LENGTH: usize = 16;

/// Length, in bytes, of the key of a new digest.
pub const KEY_LENGTH: usize = 32;

/// The most memory, in KiB, that a digest may ask the verifier to spend.
pub const MAX_MEMORY: u32 = 1048576;

/// The most passes that a digest may ask the verifier to make.
pub const MAX_PASSES: u32 = 64;

/// The most lanes that a digest may ask the verifier to fill.
pub const MAX_LANES: u32 = 64;

/// The Argon2id (version 1.3) key of `length` bytes derived from `password`
/// under `salt` with the given cost parameters, or `None` where the
/// derivation refuses its input.
pub uninterp spec fn argon2id(
    password: Seq<u8>,
    salt: Seq<u8>,
    memory: u32,
    passes: u32,
    lanes: u32,
    length: nat,
) -> Option<Seq<u8>>;

/// The inputs that the `argon2` crate accepts: a password and a salt whose
/// lengths fit 32 bits, a salt of at least eight bytes, at least one pass and
/// one lane, at least eight KiB of memory for each lane, and a key of four
/// bytes or more whose length fits 32 bits.
pub open spec fn derivable(
    password_length: nat,
    salt_length: nat,
    memory: u32,
    passes: u32,
    lanes: u32,
    length: nat,
) -> bool {
    &&& password_length <= 0xFFFF_FFFF
    &&& 8 <= salt_length <= 0xFFFF_FFFF
    &&& passes >= 1
    &&& lanes >= 1
    &&& memory >= 8 * lanes
    &&& 4 <= length <= 0xFFFF_FFFF
}

/// Derives the key with the `argon2` crate: `Params::new`, `Argon2::new` for
/// Argon2id version 0x13, and `hash_password_into` on a buffer of `length`
/// bytes. The contract names the result, says that a key fills the buffer,
/// and says on which inputs there is one: `Params::new` and
/// `hash_password_into` refuse exactly the inputs outside the limits that
/// `derivable` lists, and nothing else in them fails. The cost parameters
/// are bounded because `Params::new` multiplies `lanes` by eight before it
/// checks it, and because the memory is allocated in one piece.
#[verifier::external_body]
fn derive_key(
    password: &[u8],
    salt: &[u8],
    memory: u32,
    passes: u32,
    lanes: u32,
    length: usize,
) -> (key: Option<Vec<u8>>)
    requires
        memory <= MAX_MEMORY,
        passes <= MAX_PASSES,
        lanes <= MAX_LANES,
    ensures
        key is Some <==> argon2id(password@, salt@, memory, passes, lanes, length as nat) is Some,
        key matches Some(k) ==> argon2id(password@, salt@, memory, passes, lanes, length as nat)
            == Some(k@) && k@.len() == length,
        key is Some <==> derivable(
            password@.len(),
            salt@.len(),
            memory,
            passes,
            lanes,
            length as nat,
        ),
{
    let params = match argon2::Params::new(memory, passes, lanes, Some(length)) {
        Ok(params) => params,
        Err(_) => return None,
    };
    let context = argon2::Argon2::new(argon2::Algorithm::Argon2id, argon2::Version::V0x13, params);
    let mut key = vec![0u8; length];
    match context.hash_password_into(password, salt, &mut key) {
        Ok(()) => Some(key),
        Err(_) => None,
    }
}

/// Draws `length` bytes from `rand::thread_rng` with `fill_bytes`. Only the
/// length is known of them. The generator does not return where the
/// operating system has no entropy to seed it with, which no argument
/// decides.
#[verifier::external_body]
fn random_bytes(length: usize) -> (bytes: Vec<u8>)
    ensures
        bytes@.len() == length,
{
    let mut bytes = vec![0u8; length];
    rand::thread_rng().fill_bytes(&mut bytes);
    bytes
}

/// The text of a digest with the given parameters, salt and key.
pub open spec fn digest_text(
    memory: u32,
    passes: u32,
    lanes: u32,
    salt: Seq<u8>,
    key: Seq<u8>,
) -> Seq<u8> {
    digits(memory as nat) + seq![DIGEST_SEPARATOR] + (digits(passes as nat) + seq![
        DIGEST_SEPARATOR,
    ] + (digits(lanes as nat) + seq![DIGEST_SEPARATOR] + (hex_text(salt) + seq![
        DIGEST_SEPARATOR,
    ] + hex_text(key))))
}

/// What a digest holds.
pub struct DigestParts {
    pub memory: u32,
    pub passes: u32,
    pub lanes: u32,
    pub salt: Seq<u8>,
    pub key: Seq<u8>,
}

/// The parts of a well-formed digest whose parameters are within the
/// verifier's limits; `None` for any other text.
pub open spec fn digest_parts(text: Seq<u8>) -> Option<DigestParts> {
    match split_once(text, DIGEST_SEPARATOR) {
        None => None,
        Some((memory, rest)) => match split_once(rest, DIGEST_SEPARATOR) {
            None => None,
            Some((passes, rest)) => match split_once(rest, DIGEST_SEPARATOR) {
                None => None,
                Some((lanes, rest)) => match split_once(rest, DIGEST_SEPARATOR) {
                    None => None,
                    Some((salt, key)) => match (
                        unsigned_value(memory, MAX_MEMORY as nat),
                        unsigned_value(passes, MAX_PASSES as nat),
                        unsigned_value(lanes, MAX_LANES as nat),
                    ) {
                        (Some(m), Some(t), Some(p)) => if is_hex_text(salt) && is_hex_text(key) {
                            Some(
                                DigestParts {
                                    memory: m as u32,
                                    passes: t as u32,
                                    lanes: p as u32,
                                    salt: hex_bytes(salt),
                                    key: hex_bytes(key),
                                },
                            )
                        } else {
                            None
                        },
                        _ => None,
                    },
                },
            },
        },
    }
}

/// Whether `secret` matches `digest`: the digest is well formed and the key
/// derived from `secret` under the digest's salt and parameters is the key
/// that the digest holds. Any malformed digest is a mismatch.
pub open spec fn verifies(secret: Seq<u8>, digest: Seq<u8>) -> bool {
    match digest_parts(digest) {
        None => false,
        Some(parts) => argon2id(
            secret,
            parts.salt,
            parts.memory,
            parts.passes,
            parts.lanes,
            parts.key.len(),
        ) == Some(parts.key),
    }
}

/// The digest of `secret` under `salt` with the default parameters, or `None`
/// where the derivation refuses the input or gives a key of another length
/// than it was asked for.
pub open spec fn hashed(secret: Seq<u8>, salt: Seq<u8>) -> Option<Seq<u8>> {
    match argon2id(
        secret,
        salt,
        DEFAULT_MEMORY,
        DEFAULT_PASSES,
        DEFAULT_LANES,
        KEY_LENGTH as nat,
    ) {
        Some(key) => if key.len() == KEY_LENGTH {
            Some(digest_text(DEFAULT_MEMORY, DEFAULT_PASSES, DEFAULT_LANES, salt, key))
        } else {
            None
        },
        None => None,
    }
}

/// Why a secret could not be hashed.
#[derive(Debug, Clone, Copy, PartialEq, Eq, Structural)]
pub enum HashError {
    /// The key derivation refused the secret or the salt.
    Derivation,
}

/// A digest, read into its parts.
#[derive(Debug, Clone, PartialEq, Eq)]
pub struct Digest {
    pub memory: u32,
    pub passes: u32,
    pub lanes: u32,
    pub salt: Vec<u8>,
    pub key: Vec<u8>,
}

impl View for Digest {
    type V = DigestParts;

    open spec fn view(&self) -> DigestParts {
        DigestParts {
            memory: self.memory,
            passes: self.passes,
            lanes: self.lanes,
            salt: self.salt@,
            key: self.key@,
        }
    }
}

/// Whether `outcome` is what `expected` says.
pub open spec fn is_hashed(outcome: Result<String, HashError>, expected: Option<Seq<u8>>) -> bool {
    match expected {
        Some(digest) => outcome matches Ok(text) && encode_utf8(text@) == digest,
        None => outcome == Err::<String, HashError>(HashError::Derivation),
    }
}

/// Writes a digest from its parts.
pub fn write_digest(memory: u32, passes: u32, lanes: u32, salt: &[u8], key: &[u8]) -> (digest:
    String)
    ensures
        encode_utf8(digest@) == digest_text(memory, passes, lanes, salt@, key@),
{
    let mut text = unsigned_encode(memory as u64);
    text.push(DIGEST_SEPARATOR);
    let mut passes_text = unsigned_encode(passes as u64);
    text.append(&mut passes_text);
    text.push(DIGEST_SEPARATOR);
    let mut lanes_text = unsigned_encode(lanes as u64);
    text.append(&mut lanes_text);
    text.push(DIGEST_SEPARATOR);
    let mut salt_hex = hex_encode(salt);
    text.append(&mut salt_hex);
    text.push(DIGEST_SEPARATOR);
    let mut key_hex = hex_encode(key);
    text.append(&mut key_hex);
    assert(text@ =~= digest_text(memory, passes, lanes, salt@, key@));
    proof {
        lemma_digest_is_ascii(memory, passes, lanes, salt@, key@);
        crate::codec::lemma_ascii_is_utf8(text@);
    }
    String::from_utf8(text).unwrap()
}

/// Reads a digest into its parts; `None` for text that is not a digest or
/// whose parameters exceed the verifier's limits.
pub fn read_digest(text: &[u8]) -> (digest: Option<Digest>)
    ensures
        digest is Some <==> digest_parts(text@) is Some,
        digest matches Some(d) ==> digest_parts(text@) == Some(d@),
{
    let (memory, rest) = match split_first(text, DIGEST_SEPARATOR) {
        Some(parts) => parts,
        None => {
            return None;
        },
    };
    let (passes, rest) = match split_first(rest, DIGEST_SEPARATOR) {
        Some(parts) => parts,
        None => {
            return None;
        },
    };
    let (lanes, rest) = match split_first(rest, DIGEST_SEPARATOR) {
        Some(parts) => parts,
        None => {
            return None;
        },
    };
    let (salt, key) = match split_first(rest, DIGEST_SEPARATOR) {
        Some(parts) => parts,
        None => {
            return None;
        },
    };
    let memory = match unsigned_decode(memory, MAX_MEMORY as u64) {
        Some(m) => m as u32,
        None => {
            return None;
        },
    };
    let passes = match unsigned_decode(passes, MAX_PASSES as u64) {
        Some(t) => t as u32,
        None => {
            return None;
        },
    };
    let lanes = match unsigned_decode(lanes, MAX_LANES as u64) {
        Some(p) => p as u32,
        None => {
            return None;
        },
    };
    let salt = match hex_decode(salt) {
        Some(bytes) => bytes,
        None => {
            return None;
        },
    };
    let key = match hex_decode(key) {
        Some(bytes) => bytes,
        None => {
            return None;
        },
    };
    Some(Digest { memory, passes, lanes, salt, key })
}

/// Whether a secret and a salt of these lengths can be hashed: both lengths
/// fit 32 bits and the salt has at least eight bytes.
pub open spec fn hashable(secret_length: nat, salt_length: nat) -> bool {
    secret_length <= 0xFFFF_FFFF && 8 <= salt_length <= 0xFFFF_FFFF
}

/// Hashes `secret` under the given salt, with the default parameters.
/// Fails exactly when the secret or the salt is too long or the salt too
/// short.
pub fn hash_password_with_salt(secret: &str, salt: &[u8]) -> (outcome: Result<String, HashError>)
    ensures
        is_hashed(outcome, hashed(encode_utf8(secret@), salt@)),
        outcome is Ok <==> hashable(encode_utf8(secret@).len(), salt@.len()),
{
    match derive_key(
        secret.as_bytes(),
        salt,
        DEFAULT_MEMORY,
        DEFAULT_PASSES,
        DEFAULT_LANES,
        KEY_LENGTH,
    ) {
        Some(key) => Ok(
            write_digest(DEFAULT_MEMORY, DEFAULT_PASSES, DEFAULT_LANES, salt, key.as_slice()),
        ),
        None => Err(HashError::Derivation),
    }
}

/// Hashes `secret` under a fresh random salt of sixteen bytes:
/// `hash_password_with_salt` with some such salt. Two calls on one secret
/// give different digests, and each of them verifies against the secret.
/// Fails exactly when the secret is too long.
pub fn hash_password(secret: &str) -> (outcome: Result<String, HashError>)
    ensures
        exists|salt: Seq<u8>|
            salt.len() == SALT_LENGTH && is_hashed(
                outcome,
                #[trigger] hashed(encode_utf8(secret@), salt),
            ),
        outcome is Ok <==> encode_utf8(secret@).len() <= 0xFFFF_FFFF,
{
    let salt = random_bytes(SALT_LENGTH);
    hash_password_with_salt(secret, salt.as_slice())
}

/// Whether `secret` matches `digest`. A malformed digest is a mismatch,
/// never an error. The derived key is compared in constant time.
pub fn verify_password(secret: &str, digest: &str) -> (matched: bool)
    ensures
        matched == verifies(encode_utf8(secret@), encode_utf8(digest@)),
{
    let parts = match read_digest(digest.as_bytes()) {
        Some(parts) => parts,
        None => {
            return false;
        },
    };
    match derive_key(
        secret.as_bytes(),
        parts.salt.as_slice(),
        parts.memory,
        parts.passes,
        parts.lanes,
        parts.key.len(),
    ) {
        Some(derived) => constant_time_eq(derived.as_slice(), parts.key.as_slice()),
        None => false,
    }
}

/// A digest holds only digits, hexadecimal digits and separators, all of
/// them ASCII.
pub proof fn lemma_digest_is_ascii(
    memory: u32,
    passes: u32,
    lanes: u32,
    salt: Seq<u8>,
    key: Seq<u8>,
)
    ensures
        forall|i: int|
            0 <= i < digest_text(memory, passes, lanes, salt, key).len() ==> digest_text(
                memory,
                passes,
                lanes,
                salt,
                key,
            )[i] < 128,
{
    let a = digits(memory as nat);
    let b = digits(passes as nat);
    let c = digits(lanes as nat);
    let d = hex_text(salt);
    let e = hex_text(key);
    lemma_digits_round_trip(memory as nat);
    lemma_digits_round_trip(passes as nat);
    lemma_digits_round_trip(lanes as nat);
    lemma_hex_round_trip(salt);
    lemma_hex_round_trip(key);
    let text = digest_text(memory, passes, lanes, salt, key);
    assert forall|i: int| 0 <= i < text.len() implies text[i] < 128 by {
        let ia = a.len() as int;
        let ib = ia + 1 + b.len();
        let ic = ib + 1 + c.len();
        let id = ic + 1 + d.len();
        if i < ia {
            assert(is_digit(a[i]));
        } else if i == ia {
        } else if i < ib {
            assert(is_digit(b[i - ia - 1]));
        } else if i == ib {
        } else if i < ic {
            assert(is_digit(c[i - ib - 1]));
        } else if i == ic {
        } else if i < id {
            assert(is_hex_digit(d[i - ic - 1]));
        } else if i == id {
        } else {
            assert(is_hex_digit(e[i - id - 1]));
        }
    }
}

/// Reading a digest gives back the parts it was written from, provided the
/// parameters are within the verifier's limits.
pub proof fn lemma_digest_round_trip(
    memory: u32,
    passes: u32,
    lanes: u32,
    salt: Seq<u8>,
    key: Seq<u8>,
)
    requires
        memory <= MAX_MEMORY,
        passes <= MAX_PASSES,
        lanes <= MAX_LANES,
    ensures
        digest_parts(digest_text(memory, passes, lanes, salt, key)) == Some(
            DigestParts { memory, passes, lanes, salt, key },
        ),
{
    let a = digits(memory as nat);
    let b = digits(passes as nat);
    let c = digits(lanes as nat);
    let d = hex_text(salt);
    let e = hex_text(key);
    lemma_digits_round_trip(memory as nat);
    lemma_digits_round_trip(passes as nat);
    lemma_digits_round_trip(lanes as nat);
    lemma_hex_round_trip(salt);
    lemma_hex_round_trip(key);
    assert forall|k: int| 0 <= k < a.len() implies a[k] != DIGEST_SEPARATOR by {
        assert(is_digit(a[k]));
    }
    assert forall|k: int| 0 <= k < b.len() implies b[k] != DIGEST_SEPARATOR by {
        assert(is_digit(b[k]));
    }
    assert forall|k: int| 0 <= k < c.len() implies c[k] != DIGEST_SEPARATOR by {
        assert(is_digit(c[k]));
    }
    assert forall|k: int| 0 <= k < d.len() implies d[k] != DIGEST_SEPARATOR by {
        assert(is_hex_digit(d[k]));
    }
    let r3 = d + seq![DIGEST_SEPARATOR] + e;
    let r2 = c + seq![DIGEST_SEPARATOR] + r3;
    let r1 = b + seq![DIGEST_SEPARATOR] + r2;
    lemma_split_joined(a, DIGEST_SEPARATOR, r1);
    lemma_split_joined(b, DIGEST_SEPARATOR, r2);
    lemma_split_joined(c, DIGEST_SEPARATOR, r3);
    lemma_split_joined(d, DIGEST_SEPARATOR, e);
}

/// Every digest that hashing makes of a secret verifies against that secret,
/// whatever the salt.
pub proof fn law_own_digest_verifies(secret: Seq<u8>, salt: Seq<u8>)
    ensures
        hashed(secret, salt) matches Some(digest) ==> verifies(secret, digest),
{
    let derived = argon2id(
        secret,
        salt,
        DEFAULT_MEMORY,
        DEFAULT_PASSES,
        DEFAULT_LANES,
        KEY_LENGTH as nat,
    );
    if derived is Some {
        let key = derived->Some_0;
        lemma_digest_round_trip(DEFAULT_MEMORY, DEFAULT_PASSES, DEFAULT_LANES, salt, key);
    }
}

/// The digest of one secret verifies against another secret exactly when
/// both derive the same key from the digest's salt. Short of such a
/// collision in the key derivation, a different secret is a mismatch.
pub proof fn law_other_secret_mismatches(secret: Seq<u8>, other: Seq<u8>, salt: Seq<u8>)
    ensures
        hashed(other, salt) matches Some(digest) ==> (verifies(secret, digest) <==> argon2id(
            secret,
            salt,
            DEFAULT_MEMORY,
            DEFAULT_PASSES,
            DEFAULT_LANES,
            KEY_LENGTH as nat,
        ) == argon2id(
            other,
            salt,
            DEFAULT_MEMORY,
            DEFAULT_PASSES,
            DEFAULT_LANES,
            KEY_LENGTH as nat,
        )),
{
    let derived = argon2id(
        other,
        salt,
        DEFAULT_MEMORY,
        DEFAULT_PASSES,
        DEFAULT_LANES,
        KEY_LENGTH as nat,
    );
    if derived is Some {
        let key = derived->Some_0;
        lemma_digest_round_trip(DEFAULT_MEMORY, DEFAULT_PASSES, DEFAULT_LANES, salt, key);
    }
}

} // verus!
