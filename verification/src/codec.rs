//! The credential codec: a token binds a subject to an expiry instant and
//! carries a keyed signature over both.
//!
//! A token is ASCII text of three fields joined by dots:
//! the subject's UTF-8 bytes in hexadecimal, the expiry in decimal seconds
//! since the Unix epoch, and the HMAC-SHA-256 of the first two fields (dot
//! included) in hexadecimal. Validity is decided from the token, the key
//! and the clock alone; nothing is stored.

use crate::clock::{is_reading, unix_now, CLOCK_MAX, CLOCK_MIN};
use crate::encoding::{
    constant_time_eq, decimal_decode, decimal_encode, decimal_text, hex_bytes, hex_decode,
    hex_encode, hex_text, i64_value, is_hex_digit, is_hex_text, lemma_decimal_alphabet,
    lemma_decimal_canonical, lemma_decimal_round_trip, lemma_hex_canonical, lemma_hex_round_trip,
    lemma_first_index, lemma_split_joined, lemma_split_parts, split_first, split_once,
};
use hmac::Mac;
use vstd::prelude::*;
use vstd::utf8::{
    decode_utf8, decode_utf8_encode_utf8, encode_utf8, encode_utf8_decode_utf8,
    encode_utf8_valid_utf8, is_ascii_chars, is_ascii_chars_encode_utf8, valid_utf8,
};

verus! {

/// The byte that separates the fields of a token.
pub const FIELD_SEPARATOR: u8 = 46;

/// The HMAC-SHA-256 tag of `message` under `key`.
pub uninterp spec fn hmac_sha256(key: Seq<u8>, message: Seq<u8>) -> Seq<u8>;

/// Computes the tag with `hmac::Hmac<sha2::Sha256>`: `new_from_slice`, which
/// takes a key of any length, then `update` and `finalize`. The contract only
/// names the result; the algorithm itself is taken on trust.
#[verifier::external_body]
fn sign(key: &[u8], message: &[u8]) -> (tag: Vec<u8>)
    ensures
        tag@ == hmac_sha256(key@, message@),
{
    let mut mac = hmac::Hmac::<sha2::Sha256>::new_from_slice(key).expect(
        "HMAC takes a key of any length",
    );
    mac.update(message);
    mac.finalize().into_bytes().to_vec()
}

/// The signed part of a token: subject and expiry.
pub open spec fn payload_text(subject: Seq<char>, expires_at: int) -> Seq<u8> {
    hex_text(encode_utf8(subject)) + seq![FIELD_SEPARATOR] + decimal_text(expires_at)
}

/// A payload joined with the hexadecimal text of its tag.
pub open spec fn sealed(payload: Seq<u8>, tag: Seq<u8>) -> Seq<u8> {
    payload + seq![FIELD_SEPARATOR] + hex_text(tag)
}

/// The token that binds `subject` to `expires_at` under `key`.
pub open spec fn token_text(key: Seq<u8>, subject: Seq<char>, expires_at: int) -> Seq<u8> {
    let payload = payload_text(subject, expires_at);
    sealed(payload, hmac_sha256(key, payload))
}

/// The three fields of a token, if it has at least two separators: subject,
/// expiry, and everything after the second separator as the signature.
pub open spec fn token_fields(token: Seq<u8>) -> Option<(Seq<u8>, Seq<u8>, Seq<u8>)> {
    match split_once(token, FIELD_SEPARATOR) {
        None => None,
        Some((subject, rest)) => match split_once(rest, FIELD_SEPARATOR) {
            None => None,
            Some((expiry, signature)) => Some((subject, expiry, signature)),
        },
    }
}

/// What the fields of a token prove at time `now`, given the tag that its
/// payload ought to carry: nothing unless the signature is the hexadecimal
/// text of that tag; then nothing unless the subject field is hexadecimal
/// text of well-formed UTF-8 and the expiry field is a decimal instant that
/// `now` lies strictly before; and otherwise the subject.
pub open spec fn judged(
    subject: Seq<u8>,
    expiry: Seq<u8>,
    signature: Seq<u8>,
    tag: Seq<u8>,
    now: int,
) -> Option<Seq<char>> {
    if signature != hex_text(tag) {
        None
    } else if !is_hex_text(subject) || !valid_utf8(hex_bytes(subject)) {
        None
    } else {
        match i64_value(expiry) {
            None => None,
            Some(expires_at) => if now < expires_at {
                Some(decode_utf8(hex_bytes(subject)))
            } else {
                None
            },
        }
    }
}

/// The subject that `token` proves at time `now` under `key`, or `None`
/// when the token is malformed, carries the wrong signature, or has expired.
/// A token expires at its expiry instant: `now` must lie strictly before it.
pub open spec fn decode_text(key: Seq<u8>, token: Seq<u8>, now: int) -> Option<Seq<char>> {
    match token_fields(token) {
        None => None,
        Some((subject, expiry, signature)) => judged(
            subject,
            expiry,
            signature,
            hmac_sha256(key, subject + seq![FIELD_SEPARATOR] + expiry),
            now,
        ),
    }
}

/// What issuing for `subject` at `now` with lifetime `ttl` gives: the token
/// and its expiry instant, or nothing when the instant overflows.
pub open spec fn issued(key: Seq<u8>, subject: Seq<char>, ttl: i64, now: i64) -> Option<
    (Seq<u8>, i64),
> {
    if i64::MIN <= now + ttl <= i64::MAX {
        Some((token_text(key, subject, now + ttl), (now + ttl) as i64))
    } else {
        None
    }
}

/// Whether a lifetime of `ttl` seconds can be added to every reading of the
/// clock without leaving the 64-bit range.
pub open spec fn lifetime_fits(ttl: i64) -> bool {
    i64::MIN - CLOCK_MIN <= ttl <= i64::MAX - CLOCK_MAX
}

/// Whether `outcome` is what `issued` says.
pub open spec fn is_issued(
    outcome: Result<Credential, IssueError>,
    expected: Option<(Seq<u8>, i64)>,
) -> bool {
    match expected {
        Some((token, expires_at)) => outcome matches Ok(credential) && encode_utf8(
            credential.token@,
        ) == token && credential.expires_at == expires_at,
        None => outcome == Err::<Credential, IssueError>(IssueError::ExpiryOutOfRange),
    }
}

/// Whether `subject` is what `expected` says.
pub open spec fn is_decoded(subject: Option<String>, expected: Option<Seq<char>>) -> bool {
    match expected {
        Some(s) => subject matches Some(found) && found@ == s,
        None => subject is None,
    }
}

/// The position in `token` at which the signature field starts, if the token
/// has one.
pub open spec fn signature_start(token: Seq<u8>) -> Option<int> {
    match token_fields(token) {
        None => None,
        Some((subject, expiry, _)) => Some((subject.len() + expiry.len() + 2) as int),
    }
}

/// An issued credential: the token to hand to the client and the instant at
/// which it stops being valid.
#[derive(Debug, Clone, PartialEq, Eq)]
pub struct Credential {
    pub token: String,
    pub expires_at: i64,
}

/// Why a credential could not be issued.
#[derive(Debug, Clone, Copy, PartialEq, Eq, Structural)]
pub enum IssueError {
    /// The expiry instant `now + ttl` does not fit the 64-bit clock.
    ExpiryOutOfRange,
}

/// Issues and checks credentials under one signing secret.
pub struct Codec {
    secret: Vec<u8>,
}

/// Writes the signed part of a token for `subject` and `expires_at`.
pub fn write_payload(subject: &str, expires_at: i64) -> (payload: Vec<u8>)
    ensures
        payload@ == payload_text(subject@, expires_at as int),
{
    let mut payload = hex_encode(subject.as_bytes());
    payload.push(FIELD_SEPARATOR);
    let mut expiry = decimal_encode(expires_at);
    payload.append(&mut expiry);
    assert(payload@ =~= payload_text(subject@, expires_at as int));
    payload
}

/// Joins a payload with the hexadecimal text of its tag.
pub fn seal(payload: Vec<u8>, tag: &[u8]) -> (token: Vec<u8>)
    ensures
        token@ == sealed(payload@, tag@),
{
    let mut token = payload;
    let mut signature = hex_encode(tag);
    token.push(FIELD_SEPARATOR);
    token.append(&mut signature);
    assert(token@ =~= sealed(payload@, tag@));
    token
}

/// Judges the fields of a token against the tag that its payload ought to
/// carry. The signature is compared first, in constant time, and the payload
/// is read only if it matches.
pub fn judge(subject: &[u8], expiry: &[u8], signature: &[u8], tag: &[u8], now: i64) -> (found:
    Option<String>)
    ensures
        is_decoded(found, judged(subject@, expiry@, signature@, tag@, now as int)),
{
    let expected = hex_encode(tag);
    if !constant_time_eq(expected.as_slice(), signature) {
        return None;
    }
    let subject_bytes = match hex_decode(subject) {
        Some(bytes) => bytes,
        None => {
            return None;
        },
    };
    let subject = match String::from_utf8(subject_bytes) {
        Ok(text) => text,
        Err(_) => {
            return None;
        },
    };
    match decimal_decode(expiry) {
        Some(expires_at) => if now < expires_at {
            Some(subject)
        } else {
            None
        },
        None => None,
    }
}

impl Codec {
    /// The signing key.
    pub closed spec fn key(&self) -> Seq<u8> {
        self.secret@
    }

    /// A codec that signs with the UTF-8 bytes of `secret`.
    pub fn new(secret: &str) -> (codec: Codec)
        ensures
            codec.key() == encode_utf8(secret@),
    {
        Codec { secret: vstd::slice::slice_to_vec(secret.as_bytes()) }
    }

    /// Issues a credential for `subject` that expires `ttl` seconds after
    /// `now`. Fails exactly when `now + ttl` overflows.
    pub fn issue_at(&self, subject: &str, ttl: i64, now: i64) -> (outcome: Result<
        Credential,
        IssueError,
    >)
        ensures
            is_issued(outcome, issued(self.key(), subject@, ttl, now)),
    {
        let expires_at = match now.checked_add(ttl) {
            Some(instant) => instant,
            None => {
                return Err(IssueError::ExpiryOutOfRange);
            },
        };
        let payload = write_payload(subject, expires_at);
        let tag = sign(self.secret.as_slice(), payload.as_slice());
        let text = seal(payload, tag.as_slice());
        proof {
            lemma_token_is_ascii(self.key(), subject@, expires_at as int);
            lemma_ascii_is_utf8(text@);
        }
        let token = String::from_utf8(text).unwrap();
        Ok(Credential { token, expires_at })
    }

    /// The subject that `token` proves at time `now`, or `None` when the
    /// token is malformed, was not signed with this codec's key, or has
    /// expired.
    pub fn decode_at(&self, token: &str, now: i64) -> (subject: Option<String>)
        ensures
            is_decoded(subject, decode_text(self.key(), encode_utf8(token@), now as int)),
    {
        let bytes = token.as_bytes();
        let total = bytes.len();
        let (subject, rest) = match split_first(bytes, FIELD_SEPARATOR) {
            Some(parts) => parts,
            None => {
                return None;
            },
        };
        let (expiry, signature) = match split_first(rest, FIELD_SEPARATOR) {
            Some(parts) => parts,
            None => {
                return None;
            },
        };
        proof {
            lemma_split_parts(bytes@, FIELD_SEPARATOR);
            lemma_split_parts(rest@, FIELD_SEPARATOR);
            assert(total == subject@.len() + 1 + rest@.len());
            assert(rest@.len() == expiry@.len() + 1 + signature@.len());
        }
        let payload = vstd::slice::slice_subrange(bytes, 0, subject.len() + 1 + expiry.len());
        assert(payload@ =~= subject@ + seq![FIELD_SEPARATOR] + expiry@);
        let tag = sign(self.secret.as_slice(), payload);
        judge(subject, expiry, signature, tag.as_slice(), now)
    }

    /// Issues a credential for `subject` that expires `ttl` seconds from the
    /// current time: `issue_at` with some reading of the clock. A lifetime
    /// that can be added to every reading of the clock always gets its
    /// credential.
    pub fn issue(&self, subject: &str, ttl: i64) -> (outcome: Result<Credential, IssueError>)
        ensures
            exists|now: i64|
                is_reading(now) && is_issued(
                    outcome,
                    #[trigger] issued(self.key(), subject@, ttl, now),
                ),
            lifetime_fits(ttl) ==> outcome is Ok,
    {
        let now = unix_now();
        self.issue_at(subject, ttl, now)
    }

    /// The subject that `token` proves at the current time: `decode_at` with
    /// some reading of the clock.
    pub fn decode(&self, token: &str) -> (subject: Option<String>)
        ensures
            exists|now: i64|
                is_reading(now) && is_decoded(
                    subject,
                    #[trigger] decode_text(self.key(), encode_utf8(token@), now as int),
                ),
    {
        let now = unix_now();
        self.decode_at(token, now)
    }
}

/// Bytes below 128 are well-formed UTF-8.
pub proof fn lemma_ascii_is_utf8(bytes: Seq<u8>)
    requires
        forall|i: int| 0 <= i < bytes.len() ==> bytes[i] < 128,
    ensures
        valid_utf8(bytes),
        encode_utf8(decode_utf8(bytes)) == bytes,
{
    let chars = Seq::new(bytes.len(), |i: int| bytes[i] as char);
    assert(is_ascii_chars(chars));
    is_ascii_chars_encode_utf8(chars);
    assert(encode_utf8(chars) =~= bytes);
    encode_utf8_valid_utf8(chars);
    decode_utf8_encode_utf8(bytes);
}

/// A token holds only hexadecimal digits, decimal digits, minus signs and
/// separators, all of them ASCII.
pub proof fn lemma_token_is_ascii(key: Seq<u8>, subject: Seq<char>, expires_at: int)
    ensures
        forall|i: int|
            0 <= i < token_text(key, subject, expires_at).len() ==> token_text(
                key,
                subject,
                expires_at,
            )[i] < 128,
{
    let token = token_text(key, subject, expires_at);
    let a = hex_text(encode_utf8(subject));
    let b = decimal_text(expires_at);
    let c = hex_text(hmac_sha256(key, payload_text(subject, expires_at)));
    lemma_hex_round_trip(encode_utf8(subject));
    lemma_hex_round_trip(hmac_sha256(key, payload_text(subject, expires_at)));
    assert forall|i: int| 0 <= i < token.len() implies token[i] < 128 by {
        if i < a.len() {
            assert(token[i] == a[i]);
            assert(is_hex_digit(a[i]));
        } else if i == a.len() {
        } else if i < a.len() + 1 + b.len() {
            assert(token[i] == b[i - a.len() - 1]);
            lemma_decimal_alphabet(expires_at, i - a.len() - 1);
        } else if i == a.len() + 1 + b.len() {
        } else {
            assert(token[i] == c[i - a.len() - b.len() - 2]);
            assert(is_hex_digit(c[i - a.len() - b.len() - 2]));
        }
    }
}


/// The fields of an issued token are the parts it was assembled from.
proof fn lemma_issued_fields(key: Seq<u8>, subject: Seq<char>, expires_at: int)
    ensures
        token_fields(token_text(key, subject, expires_at)) == Some(
            (
                hex_text(encode_utf8(subject)),
                decimal_text(expires_at),
                hex_text(hmac_sha256(key, payload_text(subject, expires_at))),
            ),
        ),
{
    let a = hex_text(encode_utf8(subject));
    let b = decimal_text(expires_at);
    let c = hex_text(hmac_sha256(key, payload_text(subject, expires_at)));
    let token = token_text(key, subject, expires_at);
    lemma_hex_round_trip(encode_utf8(subject));
    assert forall|k: int| 0 <= k < a.len() implies a[k] != FIELD_SEPARATOR by {
        assert(is_hex_digit(a[k]));
    }
    assert forall|k: int| 0 <= k < b.len() implies b[k] != FIELD_SEPARATOR by {
        lemma_decimal_alphabet(expires_at, k);
    }
    let rest = b + seq![FIELD_SEPARATOR] + c;
    assert(token =~= a + seq![FIELD_SEPARATOR] + rest);
    lemma_split_joined(a, FIELD_SEPARATOR, rest);
    lemma_split_joined(b, FIELD_SEPARATOR, c);
}

/// What an issued token decodes to at any time: its subject strictly before
/// the expiry instant, nothing from the expiry instant on.
pub proof fn lemma_decode_issued(key: Seq<u8>, subject: Seq<char>, expires_at: int, now: int)
    requires
        i64::MIN <= expires_at <= i64::MAX,
    ensures
        decode_text(key, token_text(key, subject, expires_at), now) == if now < expires_at {
            Some(subject)
        } else {
            None
        },
{
    lemma_issued_fields(key, subject, expires_at);
    lemma_hex_round_trip(encode_utf8(subject));
    lemma_decimal_round_trip(expires_at);
    encode_utf8_valid_utf8(subject);
    encode_utf8_decode_utf8(subject);
}

/// Round trip: a token issued at `now` with a positive lifetime decodes, at
/// that same instant, to the subject it was issued for.
pub proof fn law_round_trip(key: Seq<u8>, subject: Seq<char>, ttl: i64, now: i64)
    requires
        ttl > 0,
        now + ttl <= i64::MAX,
    ensures
        decode_text(key, token_text(key, subject, now + ttl), now as int) == Some(subject),
{
    lemma_decode_issued(key, subject, now + ttl, now as int);
}

/// Expiry: an issued token is rejected at its expiry instant and at every
/// later time. There is no leeway.
pub proof fn law_expired_rejected(key: Seq<u8>, subject: Seq<char>, expires_at: i64, now: int)
    requires
        now >= expires_at,
    ensures
        decode_text(key, token_text(key, subject, expires_at as int), now) is None,
{
    lemma_decode_issued(key, subject, expires_at as int, now);
}

/// Tamper detection: of two tokens that differ in exactly one byte of the
/// signature field, at most one is accepted. So changing any byte of the
/// signature of a token that decodes gives a token that does not.
pub proof fn law_tampered_signature_rejected(
    key: Seq<u8>,
    token: Seq<u8>,
    position: int,
    byte: u8,
    now: int,
)
    requires
        signature_start(token) is Some,
        signature_start(token)->Some_0 <= position < token.len(),
        byte != token[position],
    ensures
        decode_text(key, token, now) is None || decode_text(
            key,
            token.update(position, byte),
            now,
        ) is None,
{
    let (subject, rest) = split_once(token, FIELD_SEPARATOR)->Some_0;
    let (expiry, signature) = split_once(rest, FIELD_SEPARATOR)->Some_0;
    lemma_split_parts(token, FIELD_SEPARATOR);
    lemma_split_parts(rest, FIELD_SEPARATOR);
    let start = subject.len() + expiry.len() + 2;
    let changed = signature.update(position - start, byte);
    let changed_rest = expiry + seq![FIELD_SEPARATOR] + changed;
    assert(token.update(position, byte) =~= subject + seq![FIELD_SEPARATOR] + changed_rest);
    lemma_split_joined(subject, FIELD_SEPARATOR, changed_rest);
    lemma_split_joined(expiry, FIELD_SEPARATOR, changed);
    assert(token_fields(token.update(position, byte)) == Some((subject, expiry, changed)));
    assert(changed[position - start] != signature[position - start]);
}

/// Truncation: a token that decodes does not decode any more once its last
/// byte is cut off.
pub proof fn law_truncated_token_rejected(key: Seq<u8>, token: Seq<u8>, now: int)
    requires
        decode_text(key, token, now) is Some,
    ensures
        token.len() > 0,
        decode_text(key, token.drop_last(), now) is None,
{
    let (subject, rest) = split_once(token, FIELD_SEPARATOR)->Some_0;
    let (expiry, signature) = split_once(rest, FIELD_SEPARATOR)->Some_0;
    lemma_split_parts(token, FIELD_SEPARATOR);
    lemma_split_parts(rest, FIELD_SEPARATOR);
    let cut = token.drop_last();
    if signature.len() > 0 {
        let shorter = signature.drop_last();
        let cut_rest = expiry + seq![FIELD_SEPARATOR] + shorter;
        assert(cut =~= subject + seq![FIELD_SEPARATOR] + cut_rest);
        lemma_split_joined(subject, FIELD_SEPARATOR, cut_rest);
        lemma_split_joined(expiry, FIELD_SEPARATOR, shorter);
        assert(token_fields(cut) == Some((subject, expiry, shorter)));
        assert(shorter.len() != signature.len());
    } else {
        assert(cut =~= subject + seq![FIELD_SEPARATOR] + expiry);
        lemma_split_joined(subject, FIELD_SEPARATOR, expiry);
        lemma_first_index(expiry, FIELD_SEPARATOR, expiry.len() as int);
    }
}

/// Integrity: a token that decodes to a subject is, byte for byte, the token
/// that issuance makes for that subject and some expiry instant still ahead.
pub proof fn law_accepted_token_was_issued(key: Seq<u8>, token: Seq<u8>, now: int)
    requires
        decode_text(key, token, now) is Some,
    ensures
        exists|expires_at: i64|
            now < expires_at && token == #[trigger] token_text(
                key,
                decode_text(key, token, now)->Some_0,
                expires_at as int,
            ),
{
    let (subject, rest) = split_once(token, FIELD_SEPARATOR)->Some_0;
    let (expiry, signature) = split_once(rest, FIELD_SEPARATOR)->Some_0;
    lemma_split_parts(token, FIELD_SEPARATOR);
    lemma_split_parts(rest, FIELD_SEPARATOR);
    let expires_at = i64_value(expiry)->Some_0;
    let name = decode_utf8(hex_bytes(subject));
    decode_utf8_encode_utf8(hex_bytes(subject));
    lemma_hex_canonical(subject);
    lemma_decimal_canonical(expiry);
    assert(payload_text(name, expires_at as int) =~= subject + seq![FIELD_SEPARATOR] + expiry);
    assert(token =~= token_text(key, name, expires_at as int));
    assert(decode_text(key, token, now)->Some_0 == name);
    assert(now < expires_at && token == token_text(
        key,
        decode_text(key, token, now)->Some_0,
        expires_at as int,
    ));
}

} // verus!
