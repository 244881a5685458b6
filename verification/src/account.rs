//! The decisions of the two account handlers: whether an account may be
//! created and what is stored for it, whether a login is accepted, and the
//! reply that each outcome sends. Looking a user up and storing one is left
//! to the caller.

use crate::authorization::{hash_password, password_digest};
use crate::crypto::random_block;
use vstd::prelude::*;

verus! {

/// The status of a reply that carries a token.
pub const STATUS_OK: u16 = 200;

/// The status of a reply to a login with a wrong password.
pub const STATUS_FORBIDDEN: u16 = 403;

/// The status of a reply to a request that names a user who exists already,
/// or one who does not exist.
pub const STATUS_CONFLICT: u16 = 409;

/// The status of a reply to a request that failed on the server's side.
pub const STATUS_INTERNAL_ERROR: u16 = 500;

/// The record that is stored for a user.
#[derive(Clone, Debug, PartialEq, Eq)]
pub struct User {
    pub username: String,
    pub salt: [u8; 32],
    pub password_hash: Vec<u8>,
}

/// What a user's record holds.
pub struct UserView {
    pub username: Seq<char>,
    pub salt: Seq<u8>,
    pub password_hash: Seq<u8>,
}

impl View for User {
    type V = UserView;

    open spec fn view(&self) -> UserView {
        UserView {
            username: self.username@,
            salt: self.salt@,
            password_hash: self.password_hash@,
        }
    }
}

/// A reply of an account handler.
#[derive(Clone, Debug, PartialEq, Eq)]
pub struct Response {
    pub status: u16,
    pub body: String,
}

/// What a reply holds.
pub struct ResponseView {
    pub status: u16,
    pub body: Seq<char>,
}

impl View for Response {
    type V = ResponseView;

    open spec fn view(&self) -> ResponseView {
        ResponseView { status: self.status, body: self.body@ }
    }
}

/// What a request to create an account comes to.
#[derive(Clone, Debug, PartialEq, Eq)]
pub enum Registration {
    /// No account is created, and this reply says why.
    Refused(Response),
    /// This record is to be stored; a token for its user follows.
    Admitted(User),
}

/// What a registration holds.
pub enum RegistrationView {
    Refused(ResponseView),
    Admitted(UserView),
}

impl View for Registration {
    type V = RegistrationView;

    open spec fn view(&self) -> RegistrationView {
        match self {
            Registration::Refused(reply) => RegistrationView::Refused(reply@),
            Registration::Admitted(user) => RegistrationView::Admitted(user@),
        }
    }
}

/// What a login attempt comes to.
#[derive(Clone, Debug, PartialEq, Eq)]
pub enum Login {
    /// The attempt fails, and this reply says why.
    Refused(Response),
    /// The password is the user's; a token follows.
    Granted,
}

/// What a login outcome holds.
pub enum LoginView {
    Refused(ResponseView),
    Granted,
}

impl View for Login {
    type V = LoginView;

    open spec fn view(&self) -> LoginView {
        match self {
            Login::Refused(reply) => LoginView::Refused(reply@),
            Login::Granted => LoginView::Granted,
        }
    }
}

/// The record of a new user: the password is stored as its salted digest.
pub open spec fn new_user(username: Seq<char>, password: Seq<char>, salt: Seq<u8>) -> UserView {
    UserView { username, salt, password_hash: password_digest(password, salt) }
}

/// What creating an account comes to, given whether the name is taken and
/// the salt for the new record.
pub open spec fn registration(
    taken: bool,
    username: Seq<char>,
    password: Seq<char>,
    salt: Seq<u8>,
) -> RegistrationView {
    if taken {
        RegistrationView::Refused(
            ResponseView { status: STATUS_CONFLICT, body: "The username already exists"@ },
        )
    } else {
        RegistrationView::Admitted(new_user(username, password, salt))
    }
}

/// What a login comes to, given the record that was found for the name, if
/// any, and the password that was presented.
pub open spec fn login_outcome(record: Option<UserView>, password: Seq<char>) -> LoginView {
    match record {
        None => LoginView::Refused(
            ResponseView { status: STATUS_CONFLICT, body: "The username doesn't exist"@ },
        ),
        Some(user) => if user.password_hash == password_digest(password, user.salt) {
            LoginView::Granted
        } else {
            LoginView::Refused(
                ResponseView { status: STATUS_FORBIDDEN, body: "The password is incorrect"@ },
            )
        },
    }
}

/// Decides a request to create an account with the given salt. A name that
/// is taken is refused; otherwise the record to store is returned.
pub fn create_account_with_salt(taken: bool, username: &str, password: &str, salt: [u8; 32]) -> (res:
    Registration)
    ensures
        res@ == registration(taken, username@, password@, salt@),
{
    if taken {
        return Registration::Refused(
            Response { status: STATUS_CONFLICT, body: "The username already exists".to_owned() },
        );
    }
    let password_hash = hash_password(password, salt);
    Registration::Admitted(User { username: username.to_owned(), salt, password_hash })
}

/// Decides a request to create an account, with a fresh random salt: the
/// outcome is the one that `create_account_with_salt` gives for the salt
/// that was drawn.
pub fn create_account(taken: bool, username: &str, password: &str) -> (res: Registration)
    ensures
        exists|salt: Seq<u8>|
            salt.len() == 32 && res@ == #[trigger] registration(taken, username@, password@, salt),
{
    let salt = random_block();
    let res = create_account_with_salt(taken, username, password, salt);
    proof {
        assert(salt@.len() == 32);
        assert(res@ == registration(taken, username@, password@, salt@));
    }
    res
}

/// Decides a login attempt from the record found for the name, if any.
pub fn login(record: Option<&User>, password: &str) -> (res: Login)
    ensures
        res@ == login_outcome(
            match record {
                Some(user) => Some(user@),
                None => None,
            },
            password@,
        ),
{
    match record {
        None => Login::Refused(
            Response { status: STATUS_CONFLICT, body: "The username doesn't exist".to_owned() },
        ),
        Some(user) => {
            let presented = hash_password(password, user.salt);
            if user.password_hash == presented {
                assert(user.password_hash@ =~= presented@);
                Login::Granted
            } else {
                assert(user.password_hash@ != presented@);
                Login::Refused(
                    Response {
                        status: STATUS_FORBIDDEN,
                        body: "The password is incorrect".to_owned(),
                    },
                )
            }
        },
    }
}

/// The reply that carries a token to a client whose account was created or
/// whose login was granted.
pub fn token_reply(token: String) -> (reply: Response)
    ensures
        reply@ == (ResponseView { status: STATUS_OK, body: token@ }),
{
    Response { status: STATUS_OK, body: token }
}

/// The reply to a request that failed on the server's side.
pub fn failure_reply(reason: String) -> (reply: Response)
    ensures
        reply@ == (ResponseView { status: STATUS_INTERNAL_ERROR, body: reason@ }),
{
    Response { status: STATUS_INTERNAL_ERROR, body: reason }
}

/// A user who has just been admitted can log in with the same password, and
/// the account of a user who is known cannot be created again.
pub proof fn lemma_admitted_user_can_log_in(
    username: Seq<char>,
    password: Seq<char>,
    salt: Seq<u8>,
)
    ensures
        registration(false, username, password, salt) == RegistrationView::Admitted(
            new_user(username, password, salt),
        ),
        login_outcome(Some(new_user(username, password, salt)), password) == LoginView::Granted,
        registration(true, username, password, salt) is Refused,
{
}

} // verus!
