use session_auth::password::{
    hash_password, hash_password_with_salt, read_digest, verify_password, write_digest, Digest,
    HashError,
};

#[test]
fn own_digest_verifies() {
    for secret in ["secret123", "", "pässwörd", "a much longer secret with spaces in it"] {
        let digest = hash_password(secret).unwrap();
        assert!(verify_password(secret, &digest), "{}", secret);
    }
}

#[test]
fn other_secret_does_not_verify() {
    let digest = hash_password("secret123").unwrap();
    assert!(!verify_password("secret124", &digest));
    assert!(!verify_password("", &digest));
    assert!(!verify_password("SECRET123", &digest));
    assert!(!verify_password("secret123 ", &digest));
}

#[test]
fn digests_of_one_secret_differ() {
    let a = hash_password("secret123").unwrap();
    let b = hash_password("secret123").unwrap();
    assert_ne!(a, b);
    assert!(verify_password("secret123", &a));
    assert!(verify_password("secret123", &b));
}

#[test]
fn digest_carries_its_parameters_and_salt() {
    let salt = [1u8, 2, 3, 4, 5, 6, 7, 8, 9, 10, 11, 12, 13, 14, 15, 16];
    let digest = hash_password_with_salt("secret123", &salt).unwrap();
    let fields: Vec<&str> = digest.split('$').collect();
    assert_eq!(fields.len(), 5);
    assert_eq!(fields[0], "19456");
    assert_eq!(fields[1], "2");
    assert_eq!(fields[2], "1");
    assert_eq!(fields[3], "0102030405060708090a0b0c0d0e0f10");
    assert_eq!(fields[4].len(), 64);
    assert!(fields[4].bytes().all(|c| c.is_ascii_digit() || (b'a'..=b'f').contains(&c)));
    // same secret and salt, same digest
    assert_eq!(hash_password_with_salt("secret123", &salt).unwrap(), digest);
    // another salt, another key
    let other = hash_password_with_salt("secret123", &[9u8; 16]).unwrap();
    assert_ne!(other.split('$').last(), digest.split('$').last());
    assert!(verify_password("secret123", &digest));
}

#[test]
fn fresh_salt_has_sixteen_bytes() {
    let digest = hash_password("secret123").unwrap();
    let fields: Vec<&str> = digest.split('$').collect();
    assert_eq!(fields[3].len(), 32);
}

#[test]
fn verify_uses_the_parameters_in_the_digest() {
    // Argon2id reference vector: version 0x13, two passes, 64 MiB, one lane,
    // password "password", salt "somesalt".
    let digest = "65536$2$1$736f6d6573616c74$\
                  09316115d5cf24ed5a15a31a3ba326e5cf32edc24702987c02b6566f61913cf7";
    assert!(verify_password("password", digest));
    assert!(!verify_password("Password", digest));
    // the same key under other parameters is a mismatch
    let digest = "65536$3$1$736f6d6573616c74$\
                  09316115d5cf24ed5a15a31a3ba326e5cf32edc24702987c02b6566f61913cf7";
    assert!(!verify_password("password", digest));
}

#[test]
fn short_salt_is_refused() {
    assert_eq!(hash_password_with_salt("secret123", &[1, 2, 3]), Err(HashError::Derivation));
    assert!(hash_password_with_salt("secret123", &[0u8; 8]).is_ok());
}

#[test]
fn malformed_digest_is_a_mismatch() {
    let good = hash_password_with_salt("secret123", &[7u8; 16]).unwrap();
    assert!(verify_password("secret123", &good));
    let key = good.split('$').last().unwrap().to_string();
    for digest in [
        String::new(),
        "$".to_string(),
        "$$$$".to_string(),
        "19456$2$1$07070707070707070707070707070707".to_string(),
        format!("19456$2$1$07070707070707070707070707070707${}$", key),
        format!("19456$2$1$07070707070707070707070707070707${}$00", key),
        format!("x$2$1$07070707070707070707070707070707${}", key),
        format!("019456$2$1$07070707070707070707070707070707${}", key),
        format!("19456$2$1$0707070707070707070707070707070${}", key),
        format!("19456$2$1$0707070707070707070707070707070g${}", key),
        format!("19456$2$1$07070707070707070707070707070707${}", key.to_uppercase()),
        format!("19456$2$1$07070707070707070707070707070707${}", &key[..62]),
        format!("19456$2$1$07070707070707070707070707070707$"),
        format!("19456$0$1$07070707070707070707070707070707${}", key),
        format!("19456$2$0$07070707070707070707070707070707${}", key),
        format!("1$2$1$07070707070707070707070707070707${}", key),
        format!("$argon2id$v=19$m=19456,t=2,p=1$BwcHBwcHBwcHBwcHBwcHBw${}", key),
        "not a digest".to_string(),
    ] {
        assert!(!verify_password("secret123", &digest), "{:?}", digest);
    }
}

#[test]
fn digest_that_asks_too_much_is_a_mismatch() {
    let good = hash_password_with_salt("secret123", &[7u8; 16]).unwrap();
    let key = good.split('$').last().unwrap().to_string();
    for digest in [
        format!("1048577$2$1$07070707070707070707070707070707${}", key),
        format!("4294967295$2$1$07070707070707070707070707070707${}", key),
        format!("19456$65$1$07070707070707070707070707070707${}", key),
        format!("19456$2$65$07070707070707070707070707070707${}", key),
        format!("19456$2$4294967295$07070707070707070707070707070707${}", key),
        format!("99999999999999999999999$2$1$07070707070707070707070707070707${}", key),
    ] {
        assert!(!verify_password("secret123", &digest), "{:?}", digest);
    }
}

#[test]
fn digest_text_is_five_fields_joined_by_dollars() {
    let text = write_digest(19456, 2, 1, &[1, 2, 0xff], &[0xab, 0x00]);
    assert_eq!(text, "19456$2$1$0102ff$ab00");
    assert_eq!(
        read_digest(text.as_bytes()),
        Some(Digest { memory: 19456, passes: 2, lanes: 1, salt: vec![1, 2, 0xff], key: vec![0xab, 0x00] })
    );
    assert_eq!(write_digest(0, 0, 0, &[], &[]), "0$0$0$$");
    assert_eq!(
        read_digest(b"0$0$0$$"),
        Some(Digest { memory: 0, passes: 0, lanes: 0, salt: vec![], key: vec![] })
    );
    assert_eq!(
        read_digest(b"1048576$64$64$00$11"),
        Some(Digest { memory: 1048576, passes: 64, lanes: 64, salt: vec![0], key: vec![0x11] })
    );
    assert_eq!(read_digest(b"1048577$64$64$00$11"), None);
    assert_eq!(read_digest(b"1048576$65$64$00$11"), None);
    assert_eq!(read_digest(b"1048576$64$65$00$11"), None);
    assert_eq!(read_digest(b"1$2$3$00"), None);
    assert_eq!(read_digest(b"1$2$3$00$11$"), None);
    assert_eq!(read_digest(b"1$2$3$0$11"), None);
    assert_eq!(read_digest(b"01$2$3$00$11"), None);
    assert_eq!(read_digest(b""), None);
}
