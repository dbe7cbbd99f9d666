use session_auth::error::{
    AppError, ErrorResponse, FieldError, Outcome, StatusError, ValidationErrors,
};
use session_auth::{empty_ok, json_ok, ApiResponse, Empty};

fn status(code: u16, name: &str, brief: &str) -> AppError {
    AppError::HttpStatus(StatusError {
        code,
        name: name.to_string(),
        brief: brief.to_string(),
    })
}

#[test]
fn public_error_is_a_bad_request_with_its_message() {
    let outcome = AppError::public("no such page").write();
    assert_eq!(
        outcome,
        Outcome {
            status: 400,
            body: ErrorResponse { code: 400, msg: "no such page".to_string() },
            log: None,
        }
    );
    assert_eq!(AppError::public("x"), AppError::Public("x".to_string()));
    assert_eq!(AppError::internal("x"), AppError::Internal("x".to_string()));
}

#[test]
fn status_error_shows_brief_or_name() {
    let outcome = status(401, "Unauthorized", "Account not exist or password is incorrect.").write();
    assert_eq!(outcome.status, 401);
    assert_eq!(outcome.body.code, 401);
    assert_eq!(outcome.body.msg, "Account not exist or password is incorrect.");
    assert_eq!(outcome.log, None);
    let outcome = status(404, "Not Found", "").write();
    assert_eq!(outcome.status, 404);
    assert_eq!(outcome.body.code, 404);
    assert_eq!(outcome.body.msg, "Not Found");
}

#[test]
fn internal_failures_show_no_detail() {
    for error in [
        AppError::internal("pool exhausted at 10.0.0.3"),
        AppError::HttpParse("unexpected end of input at byte 17".to_string()),
        AppError::Anyhow("User does not exist.".to_string()),
        AppError::Seaorm("relation \"users\" does not exist".to_string()),
    ] {
        let outcome = error.write();
        assert_eq!(outcome.status, 500);
        assert_eq!(outcome.body, ErrorResponse { code: 500, msg: "Internal server error".to_string() });
        assert!(outcome.log.is_some());
    }
    assert_eq!(
        AppError::Seaorm("relation \"users\" does not exist".to_string()).write().log,
        Some("relation \"users\" does not exist".to_string())
    );
}

#[test]
fn framework_failure_shows_its_own_fixed_message() {
    let outcome = AppError::Salvo("handler panicked at src/x.rs:3".to_string()).write();
    assert_eq!(outcome.status, 500);
    assert_eq!(
        outcome.body,
        ErrorResponse { code: 500, msg: "Unknown error happened in salvo.".to_string() }
    );
    assert_eq!(outcome.log, Some("handler panicked at src/x.rs:3".to_string()));
    assert_eq!(AppError::Salvo(String::new()).write().body, outcome.body);
}

#[test]
fn error_text_names_the_kind_and_quotes_the_message() {
    assert_eq!(AppError::public("m").to_text(), "public: `m`");
    assert_eq!(AppError::public("").to_text(), "public: ``");
    assert_eq!(AppError::internal("m").to_text(), "internal: `m`");
    assert_eq!(AppError::Salvo("m".to_string()).to_text(), "salvo internal error: `m`");
    assert_eq!(AppError::HttpParse("m".to_string()).to_text(), "http parse error:`m`");
    assert_eq!(AppError::Anyhow("m".to_string()).to_text(), "anyhow error:`m`");
    assert_eq!(AppError::Seaorm("m".to_string()).to_text(), "seaorm db error:`m`");
    let errors = ValidationErrors {
        fields: vec![
            FieldError { field: "email".to_string(), message: "bad".to_string() },
            FieldError { field: "password".to_string(), message: "short".to_string() },
        ],
    };
    assert_eq!(
        AppError::Validation(errors).to_text(),
        "validation error:`email: bad\npassword: short`"
    );
    assert_eq!(
        status(401, "Unauthorized", "no").to_text(),
        "http status error: `code: 401 Unauthorized name: Unauthorized brief: no`"
    );
}

#[test]
fn status_text_is_the_text_that_the_framework_gives() {
    let theirs = salvo::http::StatusError::unauthorized().brief("Account not exist.");
    let ours = StatusError {
        code: theirs.code.as_u16(),
        name: theirs.name.clone(),
        brief: theirs.brief.clone(),
    };
    assert_eq!(ours.to_text(), theirs.to_string());
    assert_eq!(
        ours.to_text(),
        "code: 401 Unauthorized name: Unauthorized brief: Account not exist."
    );
    let theirs = salvo::http::StatusError::not_found();
    let ours = StatusError {
        code: 404,
        name: theirs.name.clone(),
        brief: theirs.brief.clone(),
    };
    assert_eq!(ours.to_text(), theirs.to_string());
    // a status code without a canonical reason
    let odd = StatusError { code: 299, name: "n".to_string(), brief: "b".to_string() };
    assert_eq!(odd.to_text(), "code: 299 <unknown status code> name: n brief: b");
    // a number that is no status code stands as it is
    let none = StatusError { code: 7, name: "n".to_string(), brief: String::new() };
    assert_eq!(none.to_text(), "code: 7 name: n brief: ");
    let none = StatusError { code: 1000, name: String::new(), brief: "b".to_string() };
    assert_eq!(none.to_text(), "code: 1000 name:  brief: b");
    let none = StatusError { code: 0, name: "n".to_string(), brief: "b".to_string() };
    assert_eq!(none.to_text(), "code: 0 name: n brief: b");
}

#[test]
fn validation_failure_names_the_failing_fields() {
    let errors = ValidationErrors {
        fields: vec![
            FieldError {
                field: "email".to_string(),
                message: "Please enter a valid email address".to_string(),
            },
            FieldError {
                field: "password".to_string(),
                message: "password length must be greater than 5".to_string(),
            },
        ],
    };
    assert_eq!(
        errors.to_text(),
        "email: Please enter a valid email address\npassword: password length must be greater than 5"
    );
    let outcome = AppError::Validation(errors).write();
    assert_eq!(outcome.status, 400);
    assert_eq!(outcome.body.code, 400);
    assert_eq!(
        outcome.body.msg,
        "Validation error: email: Please enter a valid email address\n\
         password: password length must be greater than 5"
    );
    assert_eq!(outcome.log, None);
}

#[test]
fn validation_text_of_one_and_of_no_field() {
    let one = ValidationErrors {
        fields: vec![FieldError { field: "email".to_string(), message: "bad".to_string() }],
    };
    assert_eq!(one.to_text(), "email: bad");
    let none = ValidationErrors { fields: vec![] };
    assert_eq!(none.to_text(), "");
    assert_eq!(AppError::Validation(none).write().body.msg, "Validation error: ");
}

#[test]
fn json_ok_wraps_the_payload() {
    assert_eq!(
        json_ok(vec![1, 2, 3]),
        Ok(ApiResponse { code: 200, msg: "success".to_string(), data: vec![1, 2, 3] })
    );
    assert_eq!(
        empty_ok(),
        Ok(ApiResponse { code: 200, msg: "success".to_string(), data: Empty {} })
    );
}
