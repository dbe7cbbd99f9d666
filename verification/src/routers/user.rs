//! What the user routes decide: whether an input is acceptable, what a new
//! or changed user record holds, which window of the list a query asks for,
//! and what the list page does with a client that is not logged in.

use crate::clock::{is_reading, now_utc};
use crate::error::{AppError, FieldError, ValidationErrors};
use crate::exchange::{jar_view, Cookie};
use crate::guard::{admitted, AuthGuard};
use crate::models::{PrimitiveDateTime, SafeUser, UserRecord};
use crate::codec::lifetime_fits;
use crate::password::{hash_password, hashed, law_own_digest_verifies, verifies, SALT_LENGTH};
use crate::routers::auth::{login_decision, LoginError, PageAction};
use vstd::prelude::*;
use vstd::string::StrSliceExecFns;
use vstd::utf8::encode_utf8;

verus! {

/// The name of the address field.
pub const EMAIL_FIELD: &'static str = "email";

/// The name of the secret field.
pub const PASSWORD_FIELD: &'static str = "password";

/// What is said of an address that is not one.
pub const EMAIL_MESSAGE: &'static str = "Please enter a valid email address";

/// What is said of a secret that is too short.
pub const PASSWORD_MESSAGE: &'static str = "password length must be greater than 5";

/// The fewest characters that a secret may have.
pub const MIN_PASSWORD_LENGTH: usize = 6;

/// What is said when a user to change is not in the store.
pub const NO_SUCH_USER: &'static str = "User does not exist.";

/// What is said when a secret could not be hashed.
pub const HASH_FAILED: &'static str = "password could not be hashed";

/// The number of characters of a user's identifier.
pub const ID_LENGTH: usize = 26;

/// The page of a list query that names none.
pub const DEFAULT_PAGE: u64 = 1;

/// The page size of a list query that names none.
pub const DEFAULT_PAGE_SIZE: u64 = 10;

/// Whether `text` is an e-mail address as the HTML5 specification defines
/// one.
pub uninterp spec fn is_email(text: Seq<char>) -> bool;

/// Asks `validator::ValidateEmail::validate_email`. The contract only names
/// the answer.
#[verifier::external_body]
fn check_email(text: &str) -> (valid: bool)
    ensures
        valid == is_email(text@),
{
    validator::ValidateEmail::validate_email(&text)
}

/// A fresh identifier: the text of `ulid::Ulid::new`. Which identifier it is
/// depends on the clock and on chance; what the contract claims is its
/// length, which the crate fixes for the text of every identifier.
#[verifier::external_body]
fn fresh_id() -> (id: String)
    ensures
        id@.len() == ID_LENGTH,
{
    ulid::Ulid::new().to_string()
}

/// What a client sends to create a user.
#[derive(Debug, Clone, PartialEq, Eq)]
pub struct CreateInData {
    pub email: String,
    pub password: String,
}

/// What a client sends to replace a user's address and secret.
#[derive(Debug, Clone, PartialEq, Eq)]
pub struct UpdateInData {
    pub email: String,
    pub password: String,
}

/// The fields that fail, each with its message, in the order in which the
/// input declares them.
pub open spec fn failing_fields(email_ok: bool, password_length: nat) -> Seq<
    (Seq<char>, Seq<char>),
> {
    let email = if email_ok {
        Seq::<(Seq<char>, Seq<char>)>::empty()
    } else {
        seq![(EMAIL_FIELD@, EMAIL_MESSAGE@)]
    };
    let password = if password_length >= MIN_PASSWORD_LENGTH {
        Seq::<(Seq<char>, Seq<char>)>::empty()
    } else {
        seq![(PASSWORD_FIELD@, PASSWORD_MESSAGE@)]
    };
    email + password
}

/// The field errors of `errors`, each as field name and message.
pub open spec fn fields_view(errors: Seq<FieldError>) -> Seq<(Seq<char>, Seq<char>)> {
    Seq::new(errors.len(), |i: int| (errors[i].field@, errors[i].message@))
}

/// Whether an address and a secret are acceptable.
pub open spec fn acceptable(email: Seq<char>, password: Seq<char>) -> bool {
    is_email(email) && password.len() >= MIN_PASSWORD_LENGTH
}

/// Lists the fields that fail, given whether the address is one and how
/// many characters the secret has.
pub fn field_errors(email_ok: bool, password_length: usize) -> (errors: Vec<FieldError>)
    ensures
        fields_view(errors@) == failing_fields(email_ok, password_length as nat),
{
    let mut errors: Vec<FieldError> = Vec::new();
    if !email_ok {
        errors.push(FieldError { field: EMAIL_FIELD.to_owned(), message: EMAIL_MESSAGE.to_owned() });
    }
    if password_length < MIN_PASSWORD_LENGTH {
        errors.push(
            FieldError { field: PASSWORD_FIELD.to_owned(), message: PASSWORD_MESSAGE.to_owned() },
        );
    }
    assert(fields_view(errors@) =~= failing_fields(email_ok, password_length as nat));
    errors
}

/// Validates an address and a secret: the address must be an e-mail
/// address, the secret must have at least six characters.
pub fn validate_credentials(email: &str, password: &str) -> (checked: Result<(), ValidationErrors>)
    ensures
        checked is Ok <==> acceptable(email@, password@),
        checked matches Err(e) ==> fields_view(e.fields@) == failing_fields(
            is_email(email@),
            password@.len(),
        ),
{
    let email_ok = check_email(email);
    let length = password.unicode_len();
    let fields = field_errors(email_ok, length);
    assert(fields_view(fields@).len() == fields@.len());
    if fields.len() == 0 {
        Ok(())
    } else {
        Err(ValidationErrors { fields })
    }
}

impl CreateInData {
    /// Validates the input.
    pub fn validate(&self) -> (checked: Result<(), ValidationErrors>)
        ensures
            checked is Ok <==> acceptable(self.email@, self.password@),
            checked matches Err(e) ==> fields_view(e.fields@) == failing_fields(
                is_email(self.email@),
                self.password@.len(),
            ),
    {
        validate_credentials(self.email.as_str(), self.password.as_str())
    }
}

impl UpdateInData {
    /// Validates the input.
    pub fn validate(&self) -> (checked: Result<(), ValidationErrors>)
        ensures
            checked is Ok <==> acceptable(self.email@, self.password@),
            checked matches Err(e) ==> fields_view(e.fields@) == failing_fields(
                is_email(self.email@),
                self.password@.len(),
            ),
    {
        validate_credentials(self.email.as_str(), self.password.as_str())
    }
}

/// The record of a user that has just registered: no subscription, and
/// created and last changed at the same instant.
pub fn new_user(id: String, email: String, digest: String, now: PrimitiveDateTime) -> (user:
    UserRecord)
    ensures
        user == (UserRecord {
            id,
            email,
            password: digest,
            is_vip: false,
            vip_start_time: None,
            vip_end_time: None,
            vip_level: 0,
            created_at: now,
            updated_at: now,
        }),
{
    UserRecord {
        id,
        email,
        password: digest,
        is_vip: false,
        vip_start_time: None,
        vip_end_time: None,
        vip_level: 0,
        created_at: now,
        updated_at: now,
    }
}

/// The record of `user` with a new address and digest, changed at `now`.
/// Identifier, subscription and creation instant stay.
pub fn changed_user(user: UserRecord, email: String, digest: String, now: PrimitiveDateTime) -> (changed:
    UserRecord)
    ensures
        changed == (UserRecord { email, password: digest, updated_at: now, ..user }),
{
    UserRecord {
        id: user.id,
        email,
        password: digest,
        is_vip: user.is_vip,
        vip_start_time: user.vip_start_time,
        vip_end_time: user.vip_end_time,
        vip_level: user.vip_level,
        created_at: user.created_at,
        updated_at: now,
    }
}

/// Whether `digest` is a digest of `secret` under some salt of the length
/// that fresh salts have.
pub open spec fn is_fresh_digest(secret: Seq<char>, digest: Seq<char>) -> bool {
    exists|salt: Seq<u8>|
        salt.len() == SALT_LENGTH && #[trigger] hashed(encode_utf8(secret), salt) == Some(
            encode_utf8(digest),
        )
}

/// A fresh digest of a secret verifies against that secret: the secret that
/// a user was created or changed with matches the digest that was stored.
pub proof fn law_fresh_digest_verifies(secret: Seq<char>, digest: Seq<char>)
    requires
        is_fresh_digest(secret, digest),
    ensures
        verifies(encode_utf8(secret), encode_utf8(digest)),
{
    let salt = choose|salt: Seq<u8>|
        salt.len() == SALT_LENGTH && #[trigger] hashed(encode_utf8(secret), salt) == Some(
            encode_utf8(digest),
        );
    law_own_digest_verifies(encode_utf8(secret), salt);
}

/// A user can log in with the secret it was created with: against the
/// digest that was stored, and with an issuer's lifetime, the login is
/// decided in the user's favour at every reading of the clock.
pub proof fn law_registered_secret_logs_in(
    secret: Seq<char>,
    digest: Seq<char>,
    ttl: i64,
    now: i64,
)
    requires
        is_fresh_digest(secret, digest),
        lifetime_fits(ttl),
        is_reading(now),
    ensures
        login_decision(Some(encode_utf8(digest)), encode_utf8(secret), ttl, now) == Ok::<
            int,
            LoginError,
        >(now + ttl),
{
    law_fresh_digest_verifies(secret, digest);
}

/// Whether a secret is short enough to be hashed.
pub open spec fn hashes(password: Seq<char>) -> bool {
    encode_utf8(password).len() <= 0xFFFF_FFFF
}

/// Serves the create endpoint: makes the record to store for a new user.
/// Unacceptable input is a validation failure that names the failing
/// fields. Acceptable input gets a fresh identifier of twenty-six
/// characters, the digest of its secret under a fresh salt, and a reading of
/// the clock as both instants; a secret too long to be hashed is an internal
/// failure.
pub fn create_user(idata: CreateInData) -> (outcome: Result<UserRecord, AppError>)
    ensures
        !acceptable(idata.email@, idata.password@) ==> outcome is Err && (
        outcome->Err_0 matches AppError::Validation(e) && fields_view(e.fields@) == failing_fields(
            is_email(idata.email@),
            idata.password@.len(),
        )),
        acceptable(idata.email@, idata.password@) ==> match outcome {
            Ok(user) => {
                &&& hashes(idata.password@)
                &&& user.id@.len() == ID_LENGTH
                &&& user.email == idata.email
                &&& is_fresh_digest(idata.password@, user.password@)
                &&& !user.is_vip
                &&& user.vip_start_time is None
                &&& user.vip_end_time is None
                &&& user.vip_level == 0
                &&& user.created_at == user.updated_at
                &&& is_reading(user.created_at.seconds)
            },
            Err(e) => !hashes(idata.password@) && (e matches AppError::Internal(msg) && msg@
                == HASH_FAILED@),
        },
{
    match idata.validate() {
        Ok(()) => {},
        Err(e) => {
            return Err(AppError::Validation(e));
        },
    }
    let id = fresh_id();
    let digest = match hash_password(idata.password.as_str()) {
        Ok(digest) => digest,
        Err(_) => {
            return Err(AppError::internal(HASH_FAILED));
        },
    };
    let now = now_utc();
    Ok(new_user(id, idata.email, digest, now))
}

/// Serves the update endpoint: makes the record to store for a user whose
/// address and secret are replaced. `existing` is what the store holds for
/// the identifier. Without a stored user the failure says so. With one, the
/// address and the secret are taken as they come: the record gets the new
/// address, the digest of the new secret under a fresh salt, and a reading
/// of the clock as the instant of change, and keeps the rest. A secret too
/// long to be hashed is an internal failure.
pub fn update_user(existing: Option<UserRecord>, idata: UpdateInData) -> (outcome: Result<
    UserRecord,
    AppError,
>)
    ensures
        match existing {
            None => outcome is Err && (outcome->Err_0 matches AppError::Anyhow(msg) && msg@
                == NO_SUCH_USER@),
            Some(user) => match outcome {
                Ok(changed) => {
                    &&& hashes(idata.password@)
                    &&& changed.id == user.id
                    &&& changed.email == idata.email
                    &&& is_fresh_digest(idata.password@, changed.password@)
                    &&& changed.is_vip == user.is_vip
                    &&& changed.vip_start_time == user.vip_start_time
                    &&& changed.vip_end_time == user.vip_end_time
                    &&& changed.vip_level == user.vip_level
                    &&& changed.created_at == user.created_at
                    &&& is_reading(changed.updated_at.seconds)
                },
                Err(e) => !hashes(idata.password@) && (e matches AppError::Internal(msg) && msg@
                    == HASH_FAILED@),
            },
        },
{
    let user = match existing {
        Some(user) => user,
        None => {
            return Err(AppError::Anyhow(NO_SUCH_USER.to_owned()));
        },
    };
    let digest = match hash_password(idata.password.as_str()) {
        Ok(digest) => digest,
        Err(_) => {
            return Err(AppError::internal(HASH_FAILED));
        },
    };
    let now = now_utc();
    Ok(changed_user(user, idata.email, digest, now))
}

/// What a client asks of the user list: an optional filter on the address,
/// the page (counted from one) and the page's size.
#[derive(Debug, Clone, PartialEq, Eq)]
pub struct UserListQuery {
    pub email: Option<String>,
    pub current_page: u64,
    pub page_size: u64,
}

/// One page of the user list, with the count of all users that match.
#[derive(Debug, Clone, PartialEq, Eq)]
pub struct UserListResponse {
    pub data: Vec<SafeUser>,
    pub total: u64,
    pub current_page: u64,
    pub page_size: u64,
}

impl UserListQuery {
    /// The query for the first page of all users, with the default size.
    pub fn first_page() -> (query: UserListQuery)
        ensures
            query.email is None,
            query.current_page == DEFAULT_PAGE,
            query.page_size == DEFAULT_PAGE_SIZE,
    {
        UserListQuery { email: None, current_page: DEFAULT_PAGE, page_size: DEFAULT_PAGE_SIZE }
    }

    /// How many users the pages before `current_page` hold.
    pub open spec fn spec_offset(&self) -> int {
        (self.current_page - 1) * self.page_size
    }

    /// How many users to pass over before the page starts; `None` when the
    /// page is zero (pages count from one) or the offset does not fit.
    pub fn offset(&self) -> (offset: Option<u64>)
        ensures
            offset is Some <==> self.current_page >= 1 && self.spec_offset() <= u64::MAX,
            offset matches Some(n) ==> n == self.spec_offset(),
    {
        if self.current_page == 0 {
            return None;
        }
        let before: u64 = self.current_page - 1;
        assert(before * self.page_size == self.spec_offset());
        before.checked_mul(self.page_size)
    }
}

/// What is shown of each of `users`, in order.
pub open spec fn shown_users(users: Seq<UserRecord>) -> Seq<SafeUser> {
    Seq::new(users.len(), |i: int| SafeUser::spec_of(users[i]))
}

/// Serves the list endpoint: `users` is the page that the store returned
/// for `query`, `total` the count of all users that match it. The reply
/// shows each user without its password digest and repeats the paging.
pub fn list_users(query: &UserListQuery, total: u64, users: Vec<UserRecord>) -> (reply:
    UserListResponse)
    ensures
        reply.data@ == shown_users(users@),
        reply.total == total,
        reply.current_page == query.current_page,
        reply.page_size == query.page_size,
{
    let mut users = users;
    let ghost all = users@;
    let mut data: Vec<SafeUser> = Vec::new();
    while users.len() > 0
        invariant
            users@.len() <= all.len(),
            users@ == all.take(users@.len() as int),
            data@.len() == all.len() - users@.len(),
            forall|k: int|
                0 <= k < data@.len() ==> data@[k] == SafeUser::spec_of(
                    #[trigger] all[all.len() - 1 - k],
                ),
        decreases users@.len(),
    {
        let user = users.pop().unwrap();
        data.push(SafeUser::of(user));
        assert(users@ =~= all.take(users@.len() as int));
    }
    let mut shown: Vec<SafeUser> = Vec::new();
    while data.len() > 0
        invariant
            data@.len() + shown@.len() == all.len(),
            forall|k: int|
                0 <= k < data@.len() ==> data@[k] == SafeUser::spec_of(
                    #[trigger] all[all.len() - 1 - k],
                ),
            forall|k: int| 0 <= k < shown@.len() ==> #[trigger] shown@[k] == SafeUser::spec_of(all[k]),
        decreases data@.len(),
    {
        let ghost last = data@.len() - 1;
        assert(data@[last] == SafeUser::spec_of(all[all.len() - 1 - last]));
        let safe = data.pop().unwrap();
        shown.push(safe);
    }
    assert(shown@ =~= shown_users(all));
    UserListResponse {
        data: shown,
        total,
        current_page: query.current_page,
        page_size: query.page_size,
    }
}

/// Serves the user list page: a client without a session that is valid at
/// `now` is sent to the login page; any other client gets the list, as a
/// fragment when the request asks for one and as a whole page otherwise.
pub fn list_page(guard: &AuthGuard, cookies: &Vec<Cookie>, fragment: bool, now: i64) -> (action:
    PageAction)
    ensures
        action == if admitted(guard.codec.key(), jar_view(cookies@), now as int) is None {
            PageAction::ToLogin
        } else if fragment {
            PageAction::UserListFragment
        } else {
            PageAction::UserListPage
        },
{
    match guard.check(cookies, now) {
        None => PageAction::ToLogin,
        Some(_) => if fragment {
            PageAction::UserListFragment
        } else {
            PageAction::UserListPage
        },
    }
}

} // verus!
