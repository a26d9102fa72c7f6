//! Login: what is checked before a token is issued, and what the caller
//! gets.

use vstd::prelude::*;
use vstd::string::StringExecFns;
use crate::hash::{verify, verify_spec};
use crate::id::hyphenated_text;
use crate::middlewares::auth::{Auth, AuthView};
use crate::model::{Permission, Role, Token, User};
use crate::requests::auth::Login;
use crate::responses::user::{shown_user, UserOAS};
use crate::responses::InternalServerError;
use crate::text::{chars_of, lowercase, lowercase_of, trim, trimmed_of};

verus! {

/// What is wrong with the e-mail address or user name of a login.
#[derive(Clone, Copy, Debug, PartialEq, Eq, Structural)]
pub enum IdentityError {
    /// None was given.
    Required,
    /// No user has it.
    Unknown,
}

/// What is wrong with the password of a login.
#[derive(Clone, Copy, Debug, PartialEq, Eq, Structural)]
pub enum PasswordError {
    /// None was given.
    Required,
    /// It is not the user's.
    Wrong,
}

/// The fields of a login that were refused, each with what is wrong.
#[derive(Clone, Copy, Debug, PartialEq, Eq, Structural)]
pub struct LoginErrors {
    pub email_or_username: Option<IdentityError>,
    pub password: Option<PasswordError>,
}

impl IdentityError {
    /// What the caller is told.
    pub open spec fn text(self) -> Seq<char> {
        match self {
            IdentityError::Required => "field email or username is required"@,
            IdentityError::Unknown => "email or username doesn't exist"@,
        }
    }

    /// What to tell the caller.
    pub fn message(&self) -> (message: String)
        ensures
            message@ == self.text(),
    {
        match self {
            IdentityError::Required => String::from_str("field email or username is required"),
            IdentityError::Unknown => String::from_str("email or username doesn't exist"),
        }
    }
}

impl PasswordError {
    /// What the caller is told.
    pub open spec fn text(self) -> Seq<char> {
        match self {
            PasswordError::Required => "password field is required"@,
            PasswordError::Wrong => "wrong password"@,
        }
    }

    /// What to tell the caller.
    pub fn message(&self) -> (message: String)
        ensures
            message@ == self.text(),
    {
        match self {
            PasswordError::Required => String::from_str("password field is required"),
            PasswordError::Wrong => String::from_str("wrong password"),
        }
    }
}

impl LoginErrors {
    /// Whether no field was refused.
    pub open spec fn is_empty_spec(&self) -> bool {
        self.email_or_username is None && self.password is None
    }

    /// Whether no field was refused.
    #[verifier::when_used_as_spec(is_empty_spec)]
    pub fn is_empty(&self) -> (empty: bool)
        ensures
            empty == self.is_empty_spec(),
    {
        self.email_or_username.is_none() && self.password.is_none()
    }
}

/// What a login does next.
#[derive(Debug)]
pub enum LoginStep {
    /// It is refused: no token is issued.
    Rejected(LoginErrors),
    /// Storage is to find the user with this e-mail address or user name
    /// who is not deleted.
    FindUser(String),
    /// Storage is to list the permissions of the user.
    FindPermissions(User),
    /// Storage is to list the roles of the user.
    FindRoles(User, Vec<Permission>),
    /// Storage is to hold a new token for the user of this bundle.
    Issue(Auth),
}

/// How a login ends once storage was asked to hold the token.
#[derive(Debug)]
pub enum LoginOutcome {
    /// The token is held: the caller gets its text and the user.
    Granted(crate::responses::auth::Login),
    /// Storage failed: no token is handed out.
    Failed(InternalServerError),
}

/// An e-mail address or user name as it is stored: without white space at
/// its ends, in lower case.
pub open spec fn normalized(text: Seq<char>) -> Seq<char> {
    lowercase_of(trimmed_of(text))
}

/// What is wrong with a password, given the user that was found.
pub open spec fn password_error(password: Seq<char>, found: Option<AuthView>) -> Option<
    PasswordError,
> {
    if password.len() == 0 {
        Some(PasswordError::Required)
    } else {
        match found {
            Some(auth) => if verify_spec(
                auth.user.password,
                hyphenated_text(auth.user.id.raw),
                password,
            ) {
                None
            } else {
                Some(PasswordError::Wrong)
            },
            None => None,
        }
    }
}

/// What is refused of a login, given the user that was found.
pub open spec fn login_errors(password: Seq<char>, found: Option<AuthView>) -> LoginErrors {
    LoginErrors {
        email_or_username: if found is None {
            Some(IdentityError::Unknown)
        } else {
            None
        },
        password: password_error(password, found),
    }
}

impl LoginStep {
    /// The login is refused with `errors`.
    pub open spec fn rejects(self, errors: LoginErrors) -> bool {
        match self {
            LoginStep::Rejected(given) => given == errors,
            _ => false,
        }
    }

    /// Storage is to find the user named `name`.
    pub open spec fn asks_for(self, name: Seq<char>) -> bool {
        match self {
            LoginStep::FindUser(asked) => asked@ == name,
            _ => false,
        }
    }

    /// Storage is to hold a new token for the bundle `bundle`.
    pub open spec fn issues(self, bundle: AuthView) -> bool {
        match self {
            LoginStep::Issue(auth) => auth@ == bundle,
            _ => false,
        }
    }
}

/// An e-mail address or user name as it is stored.
pub fn normalize(text: &str) -> (name: String)
    ensures
        name@ == normalized(text@),
{
    lowercase(trim(text))
}

/// Begins a login. Without an e-mail address or user name it is refused,
/// and so is its password if that is missing too. Else storage is to find
/// the user.
pub fn login(request: &Login) -> (step: LoginStep)
    ensures
        if normalized(request.email_or_username@).len() == 0 {
            step.rejects(
                LoginErrors {
                    email_or_username: Some(IdentityError::Required),
                    password: password_error(request.password@, None),
                },
            )
        } else {
            step.asks_for(normalized(request.email_or_username@))
        },
{
    let name = normalize(request.email_or_username.as_str());
    if name.as_str().is_empty() {
        let password = if request.password.as_str().is_empty() {
            Some(PasswordError::Required)
        } else {
            None
        };
        LoginStep::Rejected(
            LoginErrors { email_or_username: Some(IdentityError::Required), password },
        )
    } else {
        LoginStep::FindUser(name)
    }
}

/// Goes on when storage has looked for the user. Where it failed, found
/// nobody or found a deleted user, the login is refused as one of a user
/// that does not exist. Else storage is to list the user's permissions.
pub fn user_found(request: &Login, found: Result<Option<User>, String>) -> (step: LoginStep)
    ensures
        match found {
            Ok(Some(user)) => if user.deleted_at is Some {
                step.rejects(login_errors(request.password@, None))
            } else {
                step == LoginStep::FindPermissions(user)
            },
            _ => step.rejects(login_errors(request.password@, None)),
        },
{
    match found {
        Ok(Some(user)) => {
            if user.is_deleted() {
                checked(request, None)
            } else {
                LoginStep::FindPermissions(user)
            }
        },
        _ => checked(request, None),
    }
}

/// Goes on when storage has listed the user's permissions: where it failed
/// the login is refused as one of a user that does not exist, else storage
/// is to list the user's roles.
pub fn permissions_found(request: &Login, user: User, found: Result<Vec<Permission>, String>) -> (step:
    LoginStep)
    ensures
        match found {
            Ok(permissions) => step == LoginStep::FindRoles(user, permissions),
            Err(_) => step.rejects(login_errors(request.password@, None)),
        },
{
    match found {
        Ok(permissions) => LoginStep::FindRoles(user, permissions),
        Err(_) => checked(request, None),
    }
}

/// Goes on when storage has listed the user's roles: where it failed the
/// login is refused as one of a user that does not exist, else the
/// password is checked against the user's record.
pub fn roles_found(
    request: &Login,
    user: User,
    permissions: Vec<Permission>,
    found: Result<Vec<Role>, String>,
) -> (step: LoginStep)
    ensures
        match found {
            Ok(roles) => {
                let bundle = (Auth { user, permissions, roles })@;
                if login_errors(request.password@, Some(bundle)).is_empty() {
                    step.issues(bundle)
                } else {
                    step.rejects(login_errors(request.password@, Some(bundle)))
                }
            },
            Err(_) => step.rejects(login_errors(request.password@, None)),
        },
{
    match found {
        Ok(roles) => checked(request, Some(Auth { user, permissions, roles })),
        Err(_) => checked(request, None),
    }
}

/// Checks a login against the bundle of the user that was found. The login
/// is refused where no user was found, where the password is missing, and
/// where it is not the password of the user found. Else storage is to hold
/// a new token.
pub fn checked(request: &Login, found: Option<Auth>) -> (step: LoginStep)
    ensures
        match found {
            None => step.rejects(login_errors(request.password@, None)),
            Some(auth) => if login_errors(request.password@, Some(auth@)).is_empty() {
                step.issues(auth@)
            } else {
                step.rejects(login_errors(request.password@, Some(auth@)))
            },
        },
{
    let email_or_username = if found.is_none() {
        Some(IdentityError::Unknown)
    } else {
        None
    };
    let password = if request.password.as_str().is_empty() {
        Some(PasswordError::Required)
    } else {
        match &found {
            Some(auth) => {
                let stored = crate::hash::Hash::from_string(auth.user.password.clone());
                let salt = auth.user.id.to_string();
                if verify(&stored, salt.as_str(), request.password.as_str()) {
                    None
                } else {
                    Some(PasswordError::Wrong)
                }
            },
            None => None,
        }
    };
    let errors = LoginErrors { email_or_username, password };
    match found {
        Some(auth) => {
            if errors.is_empty() {
                LoginStep::Issue(auth)
            } else {
                LoginStep::Rejected(errors)
            }
        },
        None => LoginStep::Rejected(errors),
    }
}

/// Ends a login when storage was asked to hold the token: where it failed
/// the login fails with what storage said, else the caller gets the text
/// of the token's identifier and the bundle.
pub fn token_issued(auth: Auth, stored: Result<Token, String>) -> (outcome: LoginOutcome)
    ensures
        match stored {
            Err(message) => outcome matches LoginOutcome::Failed(failure) && failure.message@
                == message@,
            Ok(token) => outcome matches LoginOutcome::Granted(granted) && granted.user@
                == shown_user(auth.user, auth@.permissions, auth@.roles) && granted.token@
                == chars_of(token.id.token_spec()),
        },
{
    match stored {
        Err(message) => LoginOutcome::Failed(InternalServerError { message }),
        Ok(token) => LoginOutcome::Granted(
            crate::responses::auth::Login { token: token.id.token(), user: UserOAS::from_auth(&auth) },
        ),
    }
}

/// The answer to the question who the caller is: the caller's bundle, as
/// callers see it.
pub fn authenticate(auth: Auth) -> (answer: crate::responses::auth::Authenticated)
    ensures
        answer.user@ == shown_user(auth.user, auth@.permissions, auth@.roles),
{
    crate::responses::auth::Authenticated { user: UserOAS::from_auth(&auth) }
}

} // verus!
