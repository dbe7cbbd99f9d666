use session_auth::models::{
    deserialize_optional_primitive_datetime, deserialize_primitive_datetime,
    serialize_optional_primitive_datetime, serialize_primitive_datetime, DateTimeError,
    PrimitiveDateTime, RegisterUser, SafeUser, UpdateUser, UserRecord,
};

fn at(seconds: i64, nanosecond: u32) -> PrimitiveDateTime {
    PrimitiveDateTime { seconds, nanosecond }
}

#[test]
fn instant_is_written_as_iso8601_in_utc() {
    assert_eq!(
        serialize_primitive_datetime(&at(0, 0)),
        Ok("1970-01-01T00:00:00.000000000Z".to_string())
    );
    // 2024-01-02T03:04:05Z
    assert_eq!(
        serialize_primitive_datetime(&at(1_704_164_645, 500_000_000)),
        Ok("2024-01-02T03:04:05.500000000Z".to_string())
    );
    assert_eq!(
        serialize_primitive_datetime(&at(-1, 0)),
        Ok("1969-12-31T23:59:59.000000000Z".to_string())
    );
}

#[test]
fn instant_out_of_range_has_no_text() {
    assert_eq!(serialize_primitive_datetime(&at(i64::MAX, 0)), Err(DateTimeError::Unformattable));
    assert_eq!(serialize_primitive_datetime(&at(i64::MIN, 0)), Err(DateTimeError::Unformattable));
    assert_eq!(
        serialize_primitive_datetime(&at(0, 1_000_000_000)),
        Err(DateTimeError::Unformattable)
    );
}

#[test]
fn optional_instant_is_text_or_null() {
    assert_eq!(serialize_optional_primitive_datetime(&None), Ok(None));
    assert_eq!(
        serialize_optional_primitive_datetime(&Some(at(0, 0))),
        Ok(Some("1970-01-01T00:00:00.000000000Z".to_string()))
    );
    assert_eq!(
        serialize_optional_primitive_datetime(&Some(at(i64::MAX, 0))),
        Err(DateTimeError::Unformattable)
    );
}

#[test]
fn instant_is_read_from_iso8601() {
    assert_eq!(deserialize_primitive_datetime("2024-01-02T03:04:05Z"), Ok(at(1_704_164_645, 0)));
    assert_eq!(
        deserialize_primitive_datetime("2024-01-02T03:04:05.5Z"),
        Ok(at(1_704_164_645, 500_000_000))
    );
    assert_eq!(deserialize_primitive_datetime("1970-01-01T00:00:00.000000000Z"), Ok(at(0, 0)));
}

#[test]
fn offset_in_the_text_is_dropped_not_applied() {
    assert_eq!(
        deserialize_primitive_datetime("2024-01-02T03:04:05+02:00"),
        Ok(at(1_704_164_645, 0))
    );
    assert_eq!(
        deserialize_primitive_datetime("2024-01-02T03:04:05-06:00"),
        Ok(at(1_704_164_645, 0))
    );
}

#[test]
fn text_that_is_not_iso8601_is_refused() {
    for text in ["", "yesterday", "2024-13-01T00:00:00Z", "2024-01-02 03:04:05", "1704164645"] {
        assert_eq!(deserialize_primitive_datetime(text), Err(DateTimeError::Unparsable), "{}", text);
    }
}

#[test]
fn optional_instant_is_read_from_text_or_null() {
    assert_eq!(deserialize_optional_primitive_datetime(None), Ok(None));
    assert_eq!(
        deserialize_optional_primitive_datetime(Some("2024-01-02T03:04:05Z")),
        Ok(Some(at(1_704_164_645, 0)))
    );
    assert_eq!(
        deserialize_optional_primitive_datetime(Some("soon")),
        Err(DateTimeError::Unparsable)
    );
}

#[test]
fn written_instant_reads_back() {
    for dt in [at(0, 0), at(1_704_164_645, 123_456_789), at(-86_400, 1)] {
        let text = serialize_primitive_datetime(&dt).unwrap();
        assert_eq!(deserialize_primitive_datetime(&text), Ok(dt));
    }
}

#[test]
fn safe_user_leaves_out_the_digest() {
    let user = UserRecord {
        id: "01HZX3J9W8K2V6Q4T7N5M1B0YA".to_string(),
        email: "user@example.com".to_string(),
        password: "19456$2$1$00$00".to_string(),
        is_vip: true,
        vip_start_time: Some(at(10, 0)),
        vip_end_time: None,
        vip_level: 3,
        created_at: at(1, 2),
        updated_at: at(3, 4),
    };
    assert_eq!(
        SafeUser::of(user),
        SafeUser {
            id: "01HZX3J9W8K2V6Q4T7N5M1B0YA".to_string(),
            email: "user@example.com".to_string(),
            is_vip: true,
            vip_start_time: Some(at(10, 0)),
            vip_end_time: None,
            vip_level: 3,
            created_at: at(1, 2),
            updated_at: at(3, 4),
        }
    );
}

#[test]
fn inputs_hold_what_the_client_sent() {
    let register = RegisterUser { email: "a@b.c".to_string(), password: "secret123".to_string() };
    assert_eq!(register.email, "a@b.c");
    assert_eq!(register.password, "secret123");
    let update = UpdateUser {
        email: None,
        password: Some("secret123".to_string()),
        is_vip: Some(true),
        vip_start_time: None,
        vip_end_time: Some(at(5, 0)),
        vip_level: Some(2),
    };
    assert_eq!(update.vip_level, Some(2));
    assert_eq!(update.email, None);
}
