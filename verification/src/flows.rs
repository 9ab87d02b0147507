//! Handler decision cores. Each HTTP handler is an ordered pipeline: the
//! surrounding server performs the persistence calls and hands their
//! outcomes in as typed values; each step here either continues with a
//! value or returns the terminal reply, already wrapped in the envelope.

use vstd::prelude::*;
use crate::envelope::ApiResponse;
use crate::models::User;
use crate::validation::ValidationErrorSet;
use crate::schemas::login_schema::LoginRequest;
use crate::schemas::login_schema::LoginResponse;
use crate::schemas::login_schema::login_errors;
use crate::schemas::register_schema::RegisterRequest;
use crate::schemas::register_schema::RegisterResponse;
use crate::schemas::register_schema::register_errors;
use crate::schemas::user_schema::UserStoreRequest;
use crate::schemas::user_schema::UserResponse;
use crate::schemas::user_schema::UserUpdateRequest;
use crate::schemas::user_schema::update_errors;
use crate::credentials::bcrypt_check;
use crate::credentials::hash_password;
use crate::credentials::verify_password;
use crate::token::TOKEN_TTL_SECONDS;
use crate::token::generate_token;
use crate::token::token_chars;

verus! {

/// Payload variants the handlers put in the envelope.
#[derive(Debug)]
pub enum ReplyData {
    /// The aggregated validation errors, for 422 replies.
    Errors(ValidationErrorSet),
    /// Successful login: the user and a fresh token.
    Login(LoginResponse),
    /// The row stored by registration.
    Register(RegisterResponse),
    /// A single user row.
    User(UserResponse),
    /// All user rows.
    Users(Vec<User>),
    /// An explicit null payload.
    Null,
}

/// A decided reply: HTTP status code and envelope body.
#[derive(Debug)]
pub struct HttpReply {
    pub status: u16,
    pub body: ApiResponse<ReplyData>,
}

/// The credential row the login handler consults.
#[derive(Debug)]
pub struct CredentialRecord {
    pub id: i64,
    pub name: String,
    pub email: String,
    pub password_hash: String,
}

/// Outcome of the credential lookup by email.
#[derive(Debug)]
pub enum LookupOutcome {
    Found(CredentialRecord),
    NotFound,
    Failure,
}

/// Outcome of an insert or update, as a typed kind: a duplicate unique
/// key is `Conflict`, everything else that failed is `Failure`.
#[derive(Debug)]
pub enum WriteOutcome {
    Done(i64),
    Conflict,
    Failure,
}

/// Outcome of fetching one row by id.
#[derive(Debug)]
pub enum RowLookup {
    Row(User),
    Missing,
    Failure,
}

/// Outcome of checking that an id exists.
#[derive(Debug)]
pub enum IdLookup {
    Found(i64),
    Missing,
    Failure,
}

/// An error-shaped reply with the given status and message.
fn error_reply(status: u16, message: &str) -> (r: HttpReply)
    ensures
        r.status == status,
        r.body.status == false,
        r.body.message@ == message@,
        r.body.data is None,
{
    HttpReply { status, body: ApiResponse::error(message) }
}

/// The 422 reply: the error envelope whose `data` carries the whole set.
fn validation_failed(errors: ValidationErrorSet) -> (r: HttpReply)
    ensures
        r.status == 422,
        r.body.status == false,
        r.body.message@ == "Validasi Gagal"@,
        r.body.data matches Some(ReplyData::Errors(e)) && e@ == errors@,
{
    HttpReply {
        status: 422,
        body: ApiResponse {
            status: false,
            message: "Validasi Gagal".to_owned(),
            data: Some(ReplyData::Errors(errors)),
        },
    }
}

/// Login, step one: request validation. `Some` is the terminal 422 reply,
/// produced exactly when some rule is violated; an empty error set
/// bypasses the 422 path entirely.
pub fn login_validate(req: &LoginRequest) -> (r: Option<HttpReply>)
    ensures
        match r {
            None => login_errors(req.email@, req.password@).len() == 0,
            Some(rep) => login_errors(req.email@, req.password@).len() > 0 && rep.status == 422
                && rep.body.status == false && rep.body.message@ == "Validasi Gagal"@ && (
            rep.body.data matches Some(ReplyData::Errors(e)) && e@ == login_errors(
                req.email@,
                req.password@,
            )),
        },
{
    let errors = req.validate();
    if errors.is_empty() {
        None
    } else {
        Some(validation_failed(errors))
    }
}

/// Login, step two, after the credential lookup: an unknown email and a
/// wrong password yield the same 401 reply (enumeration resistance); a
/// matching password yields a fresh token for the subject.
pub fn login_finish(req: &LoginRequest, lookup: LookupOutcome, secret: &[u8], now: i64) -> (r:
    HttpReply)
    ensures
        lookup is NotFound ==> r.status == 401 && r.body.status == false && r.body.message@
            == "Email atau Password Anda Salah"@ && r.body.data is None,
        lookup is Failure ==> r.status == 500 && r.body.status == false && r.body.message@
            == "Terjadi kesalahan sistem"@ && r.body.data is None,
        lookup matches LookupOutcome::Found(rec) ==> (match bcrypt_check(
            req.password@,
            rec.password_hash@,
        ) {
            Some(true) => ((r.status == 200 && r.body.status == true && r.body.message@
                == "Login Berhasil"@ && (r.body.data matches Some(ReplyData::Login(l)) && l.user.id
                == rec.id && l.user.name@ == rec.name@ && l.user.email@ == rec.email@ && l.token@
                == token_chars(rec.id as int, now + TOKEN_TTL_SECONDS, secret@))) || (r.status
                == 500 && r.body.status == false && r.body.message@ == "Gagal membuat token"@
                && r.body.data is None && !(0 <= now && now + TOKEN_TTL_SECONDS <= i64::MAX && now
                + TOKEN_TTL_SECONDS <= usize::MAX))),
            Some(false) => r.status == 401 && r.body.status == false && r.body.message@
                == "Email atau Password Anda Salah"@ && r.body.data is None,
            None => r.status == 500 && r.body.status == false && r.body.message@
                == "Gagal memverifikasi password"@ && r.body.data is None,
        }),
{
    match lookup {
        LookupOutcome::NotFound => error_reply(401, "Email atau Password Anda Salah"),
        LookupOutcome::Failure => error_reply(500, "Terjadi kesalahan sistem"),
        LookupOutcome::Found(rec) => match verify_password(
            req.password.as_str(),
            rec.password_hash.as_str(),
        ) {
            Ok(true) => match generate_token(rec.id, now, secret) {
                Ok(token) => HttpReply {
                    status: 200,
                    body: ApiResponse::success(
                        "Login Berhasil",
                        ReplyData::Login(
                            LoginResponse {
                                user: crate::schemas::login_schema::UserResponse {
                                    id: rec.id,
                                    name: rec.name,
                                    email: rec.email,
                                },
                                token,
                            },
                        ),
                    ),
                },
                Err(_) => error_reply(500, "Gagal membuat token"),
            },
            Ok(false) => error_reply(401, "Email atau Password Anda Salah"),
            Err(_) => error_reply(500, "Gagal memverifikasi password"),
        },
    }
}

/// Registration, step one: request validation, as in login.
pub fn register_validate(req: &RegisterRequest) -> (r: Option<HttpReply>)
    ensures
        match r {
            None => register_errors(req.name@, req.email@, req.password@).len() == 0,
            Some(rep) => register_errors(req.name@, req.email@, req.password@).len() > 0
                && rep.status == 422 && rep.body.status == false && rep.body.message@
                == "Validasi Gagal"@ && (rep.body.data matches Some(ReplyData::Errors(e)) && e@
                == register_errors(req.name@, req.email@, req.password@)),
        },
{
    let errors = req.validate();
    if errors.is_empty() {
        None
    } else {
        Some(validation_failed(errors))
    }
}

/// Registration, step two: hash the password before it is stored. Failing
/// to hash is a fatal path answered generically, never echoing the secret.
pub fn register_hash(req: &RegisterRequest) -> (r: Result<String, HttpReply>)
    ensures
        match r {
            Ok(h) => bcrypt_check(req.password@, h@) == Some(true),
            Err(rep) => rep.status == 500 && rep.body.status == false && rep.body.message@
                == "Gagal mengenkripsi password"@ && rep.body.data is None,
        },
{
    match hash_password(req.password.as_str()) {
        Ok(h) => Ok(h),
        Err(_) => Err(error_reply(500, "Gagal mengenkripsi password")),
    }
}

/// Registration, step three, after the insert: a duplicate email is the
/// one conflict; the new row's id continues the pipeline.
pub fn register_on_insert(outcome: WriteOutcome) -> (r: Result<i64, HttpReply>)
    ensures
        match outcome {
            WriteOutcome::Done(id) => r matches Ok(v) && v == id,
            WriteOutcome::Conflict => r matches Err(rep) && rep.status == 409 && rep.body.status
                == false && rep.body.message@ == "Email sudah terdaftar"@ && rep.body.data is None,
            WriteOutcome::Failure => r matches Err(rep) && rep.status == 500 && rep.body.status
                == false && rep.body.message@ == "Register Gagal!"@ && rep.body.data is None,
        },
{
    match outcome {
        WriteOutcome::Done(id) => Ok(id),
        WriteOutcome::Conflict => Err(error_reply(409, "Email sudah terdaftar")),
        WriteOutcome::Failure => Err(error_reply(500, "Register Gagal!")),
    }
}

/// Registration, last step: report the stored row, without the password.
pub fn register_on_fetch(row: Option<User>) -> (r: HttpReply)
    ensures
        match row {
            Some(u) => r.status == 201 && r.body.status == true && r.body.message@
                == "Register Berhasil!"@ && (r.body.data matches Some(ReplyData::Register(resp))
                && resp.id == u.id && resp.name@ == u.name@ && resp.email@ == u.email@
                && resp.created_at == u.created_at && resp.updated_at == u.updated_at),
            None => r.status == 500 && r.body.status == false && r.body.message@
                == "Gagal mengambil data user"@ && r.body.data is None,
        },
{
    match row {
        Some(u) => HttpReply {
            status: 201,
            body: ApiResponse::success(
                "Register Berhasil!",
                ReplyData::Register(
                    RegisterResponse {
                        id: u.id,
                        name: u.name,
                        email: u.email,
                        created_at: u.created_at,
                        updated_at: u.updated_at,
                    },
                ),
            ),
        },
        None => error_reply(500, "Gagal mengambil data user"),
    }
}

/// Creating a user: validation, as registration but for the store body.
pub fn store_validate(req: &UserStoreRequest) -> (r: Option<HttpReply>)
    ensures
        match r {
            None => register_errors(req.name@, req.email@, req.password@).len() == 0,
            Some(rep) => register_errors(req.name@, req.email@, req.password@).len() > 0
                && rep.status == 422 && rep.body.status == false && rep.body.message@
                == "Validasi Gagal"@ && (rep.body.data matches Some(ReplyData::Errors(e)) && e@
                == register_errors(req.name@, req.email@, req.password@)),
        },
{
    let errors = req.validate();
    if errors.is_empty() {
        None
    } else {
        Some(validation_failed(errors))
    }
}

/// Creating a user: hash the password before it is stored.
pub fn store_hash(req: &UserStoreRequest) -> (r: Result<String, HttpReply>)
    ensures
        match r {
            Ok(h) => bcrypt_check(req.password@, h@) == Some(true),
            Err(rep) => rep.status == 500 && rep.body.status == false && rep.body.message@
                == "Gagal mengenkripsi password"@ && rep.body.data is None,
        },
{
    match hash_password(req.password.as_str()) {
        Ok(h) => Ok(h),
        Err(_) => Err(error_reply(500, "Gagal mengenkripsi password")),
    }
}

/// Creating a user, after the insert.
pub fn store_on_insert(outcome: WriteOutcome) -> (r: Result<i64, HttpReply>)
    ensures
        match outcome {
            WriteOutcome::Done(id) => r matches Ok(v) && v == id,
            WriteOutcome::Conflict => r matches Err(rep) && rep.status == 409 && rep.body.status
                == false && rep.body.message@ == "Email sudah terdaftar"@ && rep.body.data is None,
            WriteOutcome::Failure => r matches Err(rep) && rep.status == 500 && rep.body.status
                == false && rep.body.message@ == "Gagal menambahkan user"@ && rep.body.data is None,
        },
{
    match outcome {
        WriteOutcome::Done(id) => Ok(id),
        WriteOutcome::Conflict => Err(error_reply(409, "Email sudah terdaftar")),
        WriteOutcome::Failure => Err(error_reply(500, "Gagal menambahkan user")),
    }
}

/// Creating a user, last step: report the stored row.
pub fn store_on_fetch(row: Option<User>) -> (r: HttpReply)
    ensures
        match row {
            Some(u) => r.status == 201 && r.body.status == true && r.body.message@
                == "User berhasil ditambahkan"@ && (r.body.data matches Some(ReplyData::User(resp))
                && resp.id == u.id && resp.name@ == u.name@ && resp.email@ == u.email@
                && resp.created_at == u.created_at && resp.updated_at == u.updated_at),
            None => r.status == 500 && r.body.status == false && r.body.message@
                == "Gagal mengambil data user"@ && r.body.data is None,
        },
{
    match row {
        Some(u) => HttpReply {
            status: 201,
            body: ApiResponse::success(
                "User berhasil ditambahkan",
                ReplyData::User(
                    UserResponse {
                        id: u.id,
                        name: u.name,
                        email: u.email,
                        created_at: u.created_at,
                        updated_at: u.updated_at,
                    },
                ),
            ),
        },
        None => error_reply(500, "Gagal mengambil data user"),
    }
}

/// Listing users: the whole set or a generic failure.
pub fn index_reply(rows: Option<Vec<User>>) -> (r: HttpReply)
    ensures
        match rows {
            Some(users) => r.status == 200 && r.body.status == true && r.body.message@
                == "List user"@ && (r.body.data matches Some(ReplyData::Users(us)) && us@
                == users@),
            None => r.status == 500 && r.body.status == false && r.body.message@
                == "Gagal mengambil data user"@ && r.body.data is None,
        },
{
    match rows {
        Some(users) => HttpReply {
            status: 200,
            body: ApiResponse::success("List user", ReplyData::Users(users)),
        },
        None => error_reply(500, "Gagal mengambil data user"),
    }
}

/// Showing one user: found, absent, or a failure, each with its own reply.
pub fn show_reply(row: RowLookup) -> (r: HttpReply)
    ensures
        match row {
            RowLookup::Row(u) => r.status == 200 && r.body.status == true && r.body.message@
                == "Detail user"@ && (r.body.data matches Some(ReplyData::User(resp)) && resp.id
                == u.id && resp.name@ == u.name@ && resp.email@ == u.email@ && resp.created_at
                == u.created_at && resp.updated_at == u.updated_at),
            RowLookup::Missing => r.status == 404 && r.body.status == false && r.body.message@
                == "User tidak ditemukan"@ && r.body.data is None,
            RowLookup::Failure => r.status == 500 && r.body.status == false && r.body.message@
                == "Gagal mengambil data user"@ && r.body.data is None,
        },
{
    match row {
        RowLookup::Row(u) => HttpReply {
            status: 200,
            body: ApiResponse::success(
                "Detail user",
                ReplyData::User(
                    UserResponse {
                        id: u.id,
                        name: u.name,
                        email: u.email,
                        created_at: u.created_at,
                        updated_at: u.updated_at,
                    },
                ),
            ),
        },
        RowLookup::Missing => error_reply(404, "User tidak ditemukan"),
        RowLookup::Failure => error_reply(500, "Gagal mengambil data user"),
    }
}

/// Updating a user, step one: validation over all fields at once,
/// the optional password included.
pub fn update_validate(req: &UserUpdateRequest) -> (r: Option<HttpReply>)
    ensures
        match r {
            None => update_errors(
                req.name@,
                req.email@,
                match req.password {
                    Some(p) => Some(p@),
                    None => None,
                },
            ).len() == 0,
            Some(rep) => update_errors(
                req.name@,
                req.email@,
                match req.password {
                    Some(p) => Some(p@),
                    None => None,
                },
            ).len() > 0 && rep.status == 422 && rep.body.status == false && rep.body.message@
                == "Validasi Gagal"@ && (rep.body.data matches Some(ReplyData::Errors(e)) && e@
                == update_errors(
                req.name@,
                req.email@,
                match req.password {
                    Some(p) => Some(p@),
                    None => None,
                },
            )),
        },
{
    let errors = req.validate();
    if errors.is_empty() {
        None
    } else {
        Some(validation_failed(errors))
    }
}

/// The referenced user must exist: absent is 404, a lookup failure 500.
/// Updating and deleting both start here.
pub fn user_exists_check(lookup: IdLookup) -> (r: Result<i64, HttpReply>)
    ensures
        match lookup {
            IdLookup::Found(id) => r matches Ok(v) && v == id,
            IdLookup::Missing => r matches Err(rep) && rep.status == 404 && rep.body.status
                == false && rep.body.message@ == "User tidak ditemukan"@ && rep.body.data is None,
            IdLookup::Failure => r matches Err(rep) && rep.status == 500 && rep.body.status
                == false && rep.body.message@ == "Terjadi kesalahan sistem"@ && rep.body.data
                is None,
        },
{
    match lookup {
        IdLookup::Found(id) => Ok(id),
        IdLookup::Missing => Err(error_reply(404, "User tidak ditemukan")),
        IdLookup::Failure => Err(error_reply(500, "Terjadi kesalahan sistem")),
    }
}

/// Updating a user: another row already owning the new email is the one
/// conflict.
pub fn email_conflict_check(email_taken: bool) -> (r: Option<HttpReply>)
    ensures
        match r {
            Some(rep) => email_taken && rep.status == 409 && rep.body.status == false
                && rep.body.message@ == "Email sudah terdaftar"@ && rep.body.data is None,
            None => !email_taken,
        },
{
    if email_taken {
        Some(error_reply(409, "Email sudah terdaftar"))
    } else {
        None
    }
}

/// Updating a user: hash the new password exactly when one was supplied
/// and is non-empty; otherwise the stored password is left untouched and
/// this step always succeeds, making no outside call.
pub fn update_password_hash(req: &UserUpdateRequest) -> (r: Result<Option<String>, HttpReply>)
    ensures
        (req.password is None || (req.password matches Some(p) && p@.len() == 0)) ==> (
        r matches Ok(o) && o is None),
        match r {
            Ok(o) => match o {
                Some(h) => req.password matches Some(p) && p@.len() > 0 && bcrypt_check(p@, h@)
                    == Some(true),
                None => req.password is None || (req.password matches Some(p) && p@.len() == 0),
            },
            Err(rep) => rep.status == 500 && rep.body.status == false && rep.body.message@
                == "Gagal mengenkripsi password"@ && rep.body.data is None,
        },
{
    match &req.password {
        Some(p) => {
            if p.unicode_len() > 0 {
                match hash_password(p.as_str()) {
                    Ok(h) => Ok(Some(h)),
                    Err(_) => Err(error_reply(500, "Gagal mengenkripsi password")),
                }
            } else {
                Ok(None)
            }
        },
        None => Ok(None),
    }
}

/// Updating a user: a failed write is answered generically.
pub fn update_on_write(ok: bool) -> (r: Option<HttpReply>)
    ensures
        match r {
            Some(rep) => !ok && rep.status == 500 && rep.body.status == false && rep.body.message@
                == "Gagal memperbarui data user"@ && rep.body.data is None,
            None => ok,
        },
{
    if ok {
        None
    } else {
        Some(error_reply(500, "Gagal memperbarui data user"))
    }
}

/// Updating a user, last step: report the row as it now stands; a failed
/// re-fetch after a successful write is still resolved to a 500 envelope,
/// never a crash.
pub fn update_on_fetch(row: Option<User>) -> (r: HttpReply)
    ensures
        match row {
            Some(u) => r.status == 200 && r.body.status == true && r.body.message@
                == "User berhasil diperbarui"@ && (r.body.data matches Some(ReplyData::User(resp))
                && resp.id == u.id && resp.name@ == u.name@ && resp.email@ == u.email@
                && resp.created_at == u.created_at && resp.updated_at == u.updated_at),
            None => r.status == 500 && r.body.status == false && r.body.message@
                == "Gagal mengambil data user"@ && r.body.data is None,
        },
{
    match row {
        Some(u) => HttpReply {
            status: 200,
            body: ApiResponse::success(
                "User berhasil diperbarui",
                ReplyData::User(
                    UserResponse {
                        id: u.id,
                        name: u.name,
                        email: u.email,
                        created_at: u.created_at,
                        updated_at: u.updated_at,
                    },
                ),
            ),
        },
        None => error_reply(500, "Gagal mengambil data user"),
    }
}

/// Deleting a user, after the existence check: report the outcome; the
/// success envelope carries an explicit null payload.
pub fn destroy_on_delete(ok: bool) -> (r: HttpReply)
    ensures
        ok ==> r.status == 200 && r.body.status == true && r.body.message@
            == "User berhasil dihapus"@ && r.body.data matches Some(ReplyData::Null),
        !ok ==> r.status == 500 && r.body.status == false && r.body.message@
            == "Gagal menghapus user"@ && r.body.data is None,
{
    if ok {
        HttpReply {
            status: 200,
            body: ApiResponse::success("User berhasil dihapus", ReplyData::Null),
        }
    } else {
        error_reply(500, "Gagal menghapus user")
    }
}

} // verus!
