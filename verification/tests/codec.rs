use session_auth::clock::{CLOCK_MAX, CLOCK_MIN};
use session_auth::codec::{judge, seal, write_payload, Codec, IssueError};

#[test]
fn issued_token_round_trips() {
    let codec = Codec::new("signing secret");
    let credential = codec.issue_at("01HZX3J9W8K2V6Q4T7N5M1B0YA", 3600, 1_700_000_000).unwrap();
    assert_eq!(credential.expires_at, 1_700_003_600);
    assert_eq!(
        codec.decode_at(&credential.token, 1_700_000_000),
        Some("01HZX3J9W8K2V6Q4T7N5M1B0YA".to_string())
    );
}

#[test]
fn round_trip_keeps_any_subject() {
    let codec = Codec::new("k");
    for subject in ["", "a.b", "user@example.com", "日本語", "with space", "\u{0}\n"] {
        let credential = codec.issue_at(subject, 1, 0).unwrap();
        assert!(credential.token.is_ascii());
        assert_eq!(codec.decode_at(&credential.token, 0), Some(subject.to_string()));
    }
}

#[test]
fn token_is_payload_and_hmac_sha256_of_payload() {
    // The tags below were computed apart from this library.
    let codec = Codec::new("key");
    let credential = codec.issue_at("ab", 10, 5).unwrap();
    assert_eq!(
        credential.token,
        "6162.15.7ba378cc32f77f6c000f70edff75c15209c37154f78e6a518906c88628ca8aff"
    );
    let codec = Codec::new("signing secret");
    let credential = codec.issue_at("user-1", 60, 1000).unwrap();
    assert_eq!(
        credential.token,
        "757365722d31.1060.bfd1a57142f6f0872aaf432f1bef9df6ece86b124887e25905d21449c6f0f5e4"
    );
}

#[test]
fn token_expires_exactly_at_expiry() {
    let codec = Codec::new("signing secret");
    let credential = codec.issue_at("user-1", 60, 1000).unwrap();
    assert_eq!(codec.decode_at(&credential.token, 1059), Some("user-1".to_string()));
    assert_eq!(codec.decode_at(&credential.token, 1060), None);
    assert_eq!(codec.decode_at(&credential.token, 1061), None);
    assert_eq!(codec.decode_at(&credential.token, i64::MAX), None);
    assert_eq!(codec.decode_at(&credential.token, i64::MIN), Some("user-1".to_string()));
}

#[test]
fn token_without_lifetime_is_never_valid() {
    let codec = Codec::new("signing secret");
    let credential = codec.issue_at("user-1", 0, 1000).unwrap();
    assert_eq!(codec.decode_at(&credential.token, 1000), None);
    let credential = codec.issue_at("user-1", -5, 1000).unwrap();
    assert_eq!(credential.expires_at, 995);
    assert_eq!(codec.decode_at(&credential.token, 1000), None);
    assert_eq!(codec.decode_at(&credential.token, 994), Some("user-1".to_string()));
}

#[test]
fn any_change_to_the_signature_is_detected() {
    let codec = Codec::new("signing secret");
    let token = codec.issue_at("user-1", 60, 1000).unwrap().token;
    let start = token.rfind('.').unwrap() + 1;
    let bytes = token.as_bytes();
    for position in start..bytes.len() {
        for replacement in [b'0', b'1', b'a', b'f', b'g', b'A', b'.', b' ', b'-'] {
            if bytes[position] == replacement {
                continue;
            }
            let mut changed = bytes.to_vec();
            changed[position] = replacement;
            let changed = String::from_utf8(changed).unwrap();
            assert_eq!(codec.decode_at(&changed, 1000), None, "{}", changed);
        }
        // a single flipped bit
        let mut changed = bytes.to_vec();
        changed[position] ^= 0x01;
        let changed = String::from_utf8(changed).unwrap();
        assert_eq!(codec.decode_at(&changed, 1000), None, "{}", changed);
    }
}

#[test]
fn any_change_to_the_payload_is_detected() {
    let codec = Codec::new("signing secret");
    let token = codec.issue_at("user-1", 60, 1000).unwrap().token;
    // another subject, same signature
    let forged = token.replacen("757365722d31", "757365722d32", 1);
    assert_ne!(forged, token);
    assert_eq!(codec.decode_at(&forged, 1000), None);
    // a later expiry, same signature
    let forged = token.replacen(".1060.", ".9060.", 1);
    assert_ne!(forged, token);
    assert_eq!(codec.decode_at(&forged, 1000), None);
}

#[test]
fn truncated_token_is_rejected() {
    let codec = Codec::new("signing secret");
    let token = codec.issue_at("user-1", 60, 1000).unwrap().token;
    for keep in 0..token.len() {
        assert_eq!(codec.decode_at(&token[..keep], 1000), None);
    }
    let longer = format!("{}0", token);
    assert_eq!(codec.decode_at(&longer, 1000), None);
}

#[test]
fn token_of_another_key_is_rejected() {
    let ours = Codec::new("signing secret");
    let theirs = Codec::new("another secret");
    let token = theirs.issue_at("user-1", 60, 1000).unwrap().token;
    assert_eq!(theirs.decode_at(&token, 1000), Some("user-1".to_string()));
    assert_eq!(ours.decode_at(&token, 1000), None);
}

#[test]
fn malformed_tokens_are_invalid_not_errors() {
    let codec = Codec::new("signing secret");
    for token in [
        "",
        ".",
        "..",
        "...",
        "abc",
        "a.b",
        "a.b.c",
        "757365722d31.1060",
        "757365722d31.1060.",
        "757365722d31.ten.bfd1",
        "zz.1060.bfd1",
        "日本語.1.2",
        "757365722d31.1060.bfd1a57142f6f0872aaf432f1bef9df6ece86b124887e25905d21449c6f0f5e4.",
        "757365722d31.1060.bfd1a57142f6f0872aaf432f1bef9df6ece86b124887e25905d21449c6f0f5e4.x",
        " 757365722d31.1060.bfd1a57142f6f0872aaf432f1bef9df6ece86b124887e25905d21449c6f0f5e4",
    ] {
        assert_eq!(codec.decode_at(token, 0), None, "{:?}", token);
    }
}

#[test]
fn correctly_signed_but_unreadable_payload_is_invalid() {
    // Each token carries the right HMAC-SHA-256 of its payload under the key
    // "k", computed apart from this library; only the payload is at fault.
    let codec = Codec::new("k");
    for token in [
        // subject is not hexadecimal
        "zz.10.0a1099376e4c80fa8744a996b10874e13a535e74a65130c0c59c3292f0842cb6",
        // subject is hexadecimal but not UTF-8
        "ff.10.25867e482a352e3d7e416f9983d621bf1d1d1b81daeb4e4e2369f3d368d00544",
        // expiry has a leading zero
        "61.010.f5ce05c10d0d4c4f51aa1c6848414f2740e0e883bcc9e4e0236d910ec5949c44",
        // expiry is not a number
        "61.x.3a6abdfb86753b9b2171a732f9a72b5cd4bab7577dd84cef7a1e9112a16f182b",
        // subject has an odd number of digits
        "6.10.e7125931359d6cf09bd80314c1e0a13b400b6c8f0fd4acb959c000ae1d6c640b",
    ] {
        assert_eq!(codec.decode_at(token, 0), None, "{:?}", token);
    }
}

#[test]
fn expiry_overflow_is_an_error() {
    let codec = Codec::new("signing secret");
    assert_eq!(codec.issue_at("user-1", 1, i64::MAX).err(), Some(IssueError::ExpiryOutOfRange));
    assert_eq!(codec.issue_at("user-1", -1, i64::MIN).err(), Some(IssueError::ExpiryOutOfRange));
    assert!(codec.issue_at("user-1", 0, i64::MAX).is_ok());
    assert!(codec.issue_at("user-1", 0, i64::MIN).is_ok());
    let credential = codec.issue_at("user-1", i64::MAX, 0).unwrap();
    assert_eq!(credential.expires_at, i64::MAX);
    assert_eq!(codec.decode_at(&credential.token, i64::MAX - 1), Some("user-1".to_string()));
}

#[test]
fn issue_and_decode_read_the_clock() {
    let codec = Codec::new("signing secret");
    let credential = codec.issue("user-1", 3600).unwrap();
    // issued after 2020 and before 2100
    assert!(credential.expires_at > 1_577_836_800 + 3600);
    assert!(credential.expires_at < 4_102_444_800);
    assert_eq!(codec.decode(&credential.token), Some("user-1".to_string()));
    let stale = codec.issue("user-1", -1).unwrap();
    assert_eq!(codec.decode(&stale.token), None);
    assert_eq!(
        codec.decode_at(&credential.token, credential.expires_at - 1),
        Some("user-1".to_string())
    );
    assert_eq!(codec.decode_at(&credential.token, credential.expires_at), None);
}

#[test]
fn payload_is_subject_in_hex_and_expiry_in_decimal() {
    assert_eq!(write_payload("ab", 15), b"6162.15".to_vec());
    assert_eq!(write_payload("", -7), b".-7".to_vec());
    assert_eq!(write_payload("é", 0), b"c3a9.0".to_vec());
}

#[test]
fn seal_appends_the_tag_in_hex() {
    assert_eq!(
        seal(b"6162.15".to_vec(), &[0xde, 0xad, 0x00]),
        b"6162.15.dead00".to_vec()
    );
    assert_eq!(seal(b"6162.15".to_vec(), &[]), b"6162.15.".to_vec());
}

#[test]
fn judge_reads_the_payload_only_behind_the_right_signature() {
    let tag = [0xde, 0xad];
    assert_eq!(judge(b"6162", b"15", b"dead", &tag, 14), Some("ab".to_string()));
    assert_eq!(judge(b"6162", b"15", b"dead", &tag, 15), None);
    assert_eq!(judge(b"6162", b"15", b"dead", &tag, 16), None);
    assert_eq!(judge(b"6162", b"15", b"deae", &tag, 14), None);
    assert_eq!(judge(b"6162", b"15", b"DEAD", &tag, 14), None);
    assert_eq!(judge(b"6162", b"15", b"dea", &tag, 14), None);
    assert_eq!(judge(b"6162", b"15", b"", &tag, 14), None);
    assert_eq!(judge(b"616", b"15", b"dead", &tag, 14), None);
    assert_eq!(judge(b"61gg", b"15", b"dead", &tag, 14), None);
    assert_eq!(judge(b"ff", b"15", b"dead", &tag, 14), None);
    assert_eq!(judge(b"6162", b"015", b"dead", &tag, 14), None);
    assert_eq!(judge(b"6162", b"", b"dead", &tag, 14), None);
    assert_eq!(judge(b"", b"15", b"dead", &tag, 14), Some(String::new()));
    assert_eq!(judge(b"6162", b"-3", b"", &[], -4), Some("ab".to_string()));
    assert_eq!(judge(b"6162", b"-3", b"", &[], -3), None);
}

#[test]
fn clock_range_covers_the_calendar() {
    let first = time::Date::MIN.midnight().assume_utc().unix_timestamp();
    let last = time::Date::MAX.with_hms(23, 59, 59).unwrap().assume_utc().unix_timestamp();
    assert!(CLOCK_MIN <= first);
    assert!(last <= CLOCK_MAX);
    // the first second of year -999999 and the last second of year 999999
    assert_eq!(CLOCK_MIN, -31_619_087_596_800);
    assert_eq!(CLOCK_MAX, 31_494_784_780_799);
    // the same day count gives the bounds of the years -9999 to 9999
    assert_eq!(CLOCK_MIN + (999_999 - 9_999) / 400 * 146_097 * 86_400, -377_705_116_800);
    assert_eq!(CLOCK_MAX - (999_999 - 9_999) / 400 * 146_097 * 86_400, 253_402_300_799);
}

#[test]
fn lifetime_that_fits_the_clock_always_gets_its_credential() {
    let codec = Codec::new("signing secret");
    for ttl in [0, 3600, -3600, i64::MAX - CLOCK_MAX, i64::MIN - CLOCK_MIN] {
        let credential = codec.issue("user-1", ttl).unwrap();
        let now = credential.expires_at - ttl;
        assert!(CLOCK_MIN <= now && now <= CLOCK_MAX);
        assert_eq!(
            codec.decode_at(&credential.token, credential.expires_at - 1),
            Some("user-1".to_string())
        );
    }
    // after 1970 the longest lifetime overflows
    assert_eq!(codec.issue("user-1", i64::MAX).err(), Some(IssueError::ExpiryOutOfRange));
}
