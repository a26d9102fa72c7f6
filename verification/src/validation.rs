//! What can be wrong with the fields of a request, and how it is said.

use vstd::prelude::*;
use vstd::string::StringExecFns;
use crate::text::{
    alphanumeric, is_alphanumeric, is_digit, lowercase, lowercase_of, same_text, utf8_of,
};

verus! {

/// A field of a request.
#[derive(Clone, Copy, Debug, PartialEq, Eq, Structural)]
pub enum Field {
    Name,
    Email,
    Username,
    Password,
    Permissions,
    Roles,
    CurrentPassword,
    NewPassword,
    PasswordConfirmation,
    Code,
}

/// What is wrong with a field.
#[derive(Clone, Copy, Debug, PartialEq, Eq, Structural)]
pub enum Flaw {
    /// Nothing was given.
    Required,
    /// Another row has the value already.
    Taken,
    /// The value is not of the kind asked for.
    Invalid,
    /// A password of fewer than six bytes.
    TooShort,
    /// A password without an upper-case character.
    NoUppercase,
    /// A password without a digit.
    NoDigit,
    /// A password of letters and digits only.
    NoSpecial,
    /// A confirmation that is not the new password.
    Mismatch,
}

/// One thing that is wrong with one field.
#[derive(Clone, Copy, Debug, PartialEq, Eq, Structural)]
pub struct FieldFlaw {
    pub field: Field,
    pub flaw: Flaw,
}

/// The flaw of the field, where `wrong` holds; nothing where it does not.
pub open spec fn flaw_if(wrong: bool, field: Field, flaw: Flaw) -> Seq<FieldFlaw> {
    if wrong {
        seq![FieldFlaw { field, flaw }]
    } else {
        Seq::empty()
    }
}

/// Adds the flaw of the field to `flaws` where `wrong` holds.
pub fn note(flaws: &mut Vec<FieldFlaw>, wrong: bool, field: Field, flaw: Flaw)
    ensures
        final(flaws)@ == old(flaws)@ + flaw_if(wrong, field, flaw),
{
    if wrong {
        flaws.push(FieldFlaw { field, flaw });
    }
    assert(flaws@ =~= old(flaws)@ + flaw_if(wrong, field, flaw));
}

/// What is wrong with a password: it is shorter than six bytes, it has no
/// upper-case character (lower-casing leaves it as it is), it has no
/// digit, it has no character besides letters and digits.
pub open spec fn password_flaws_spec(field: Field, password: Seq<char>) -> Seq<FieldFlaw> {
    Seq::<FieldFlaw>::empty() + flaw_if(utf8_of(password).len() < 6, field, Flaw::TooShort) + flaw_if(
        lowercase_of(password) == password,
        field,
        Flaw::NoUppercase,
    ) + flaw_if(
        forall|i: int| 0 <= i < password.len() ==> !is_digit(#[trigger] password[i]),
        field,
        Flaw::NoDigit,
    ) + flaw_if(
        forall|i: int| 0 <= i < password.len() ==> alphanumeric(#[trigger] password[i]),
        field,
        Flaw::NoSpecial,
    )
}

/// Adds the flaws in `more` to `flaws`, in order.
pub fn note_all(flaws: &mut Vec<FieldFlaw>, more: &Vec<FieldFlaw>)
    ensures
        final(flaws)@ == old(flaws)@ + more@,
{
    let n: usize = more.len();
    let mut i: usize = 0;
    while i < n
        invariant
            i <= n,
            n == more@.len(),
            flaws@ == old(flaws)@ + more@.subrange(0, i as int),
        decreases n - i,
    {
        flaws.push(more[i]);
        i += 1;
        assert(flaws@ =~= old(flaws)@ + more@.subrange(0, i as int));
    }
    assert(more@.subrange(0, n as int) =~= more@);
}

/// What is wrong with the password of the field `field`.
pub fn password_flaws(field: Field, password: &str) -> (flaws: Vec<FieldFlaw>)
    ensures
        flaws@ == password_flaws_spec(field, password@),
{
    let lower = lowercase(password);
    let no_uppercase = same_text(lower.as_str(), password);
    let mut no_digit = true;
    let mut no_special = true;
    for c in it: password.chars()
        invariant
            it.seq() == password@,
            no_digit == (forall|k: int|
                0 <= k < it.index() ==> !is_digit(#[trigger] password@[k])),
            no_special == (forall|k: int|
                0 <= k < it.index() ==> alphanumeric(#[trigger] password@[k])),
    {
        if '0' <= c && c <= '9' {
            no_digit = false;
        }
        if !is_alphanumeric(c) {
            no_special = false;
        }
    }
    let short = password.as_bytes().len() < 6;
    let mut flaws: Vec<FieldFlaw> = Vec::new();
    note(&mut flaws, short, field, Flaw::TooShort);
    note(&mut flaws, no_uppercase, field, Flaw::NoUppercase);
    note(&mut flaws, no_digit, field, Flaw::NoDigit);
    note(&mut flaws, no_special, field, Flaw::NoSpecial);
    flaws
}

/// The name of a field in an answer.
pub open spec fn key_text(field: Field) -> Seq<char> {
    match field {
        Field::Name => "name"@,
        Field::Email => "email"@,
        Field::Username => "username"@,
        Field::Password => "password"@,
        Field::Permissions => "permissions"@,
        Field::Roles => "roles"@,
        Field::CurrentPassword => "current_password"@,
        Field::NewPassword => "new_password"@,
        Field::PasswordConfirmation => "password_confirmation"@,
        Field::Code => "code"@,
    }
}

/// How a field is called in a message.
pub open spec fn label_text(field: Field) -> Seq<char> {
    match field {
        Field::Name => "Name"@,
        Field::Email => "Email"@,
        Field::Username => "Username"@,
        Field::Password => "Password"@,
        Field::Permissions => "Some permissions"@,
        Field::Roles => "Some roles"@,
        Field::CurrentPassword => "Current password"@,
        Field::NewPassword => "New password"@,
        Field::PasswordConfirmation => "Password confirmation"@,
        Field::Code => "Code"@,
    }
}

/// What a message says of a flaw, after the field's label.
pub open spec fn flaw_text(field: Field, flaw: Flaw) -> Seq<char> {
    match flaw {
        Flaw::Required => " field is required"@,
        Flaw::Taken => " already exist"@,
        Flaw::Invalid => match field {
            Field::Permissions => " are invalid"@,
            Field::Roles => " are invalid"@,
            _ => " is invalid"@,
        },
        Flaw::TooShort => " must be at least 6 characters"@,
        Flaw::NoUppercase => " must contain at least 1 uppercase character"@,
        Flaw::NoDigit => " must contain at least 1 digit"@,
        Flaw::NoSpecial => " must contain at least 1 special character"@,
        Flaw::Mismatch => " must match new password"@,
    }
}

impl Field {
    /// The name of the field in an answer.
    pub fn key(&self) -> (key: String)
        ensures
            key@ == key_text(*self),
    {
        match self {
            Field::Name => String::from_str("name"),
            Field::Email => String::from_str("email"),
            Field::Username => String::from_str("username"),
            Field::Password => String::from_str("password"),
            Field::Permissions => String::from_str("permissions"),
            Field::Roles => String::from_str("roles"),
            Field::CurrentPassword => String::from_str("current_password"),
            Field::NewPassword => String::from_str("new_password"),
            Field::PasswordConfirmation => String::from_str("password_confirmation"),
            Field::Code => String::from_str("code"),
        }
    }

    /// How the field is called in a message.
    pub fn label(&self) -> (label: String)
        ensures
            label@ == label_text(*self),
    {
        match self {
            Field::Name => String::from_str("Name"),
            Field::Email => String::from_str("Email"),
            Field::Username => String::from_str("Username"),
            Field::Password => String::from_str("Password"),
            Field::Permissions => String::from_str("Some permissions"),
            Field::Roles => String::from_str("Some roles"),
            Field::CurrentPassword => String::from_str("Current password"),
            Field::NewPassword => String::from_str("New password"),
            Field::PasswordConfirmation => String::from_str("Password confirmation"),
            Field::Code => String::from_str("Code"),
        }
    }
}

impl FieldFlaw {
    /// What to tell the caller: the field's label, then what is wrong.
    pub fn message(&self) -> (message: String)
        ensures
            message@ == label_text(self.field) + flaw_text(self.field, self.flaw),
    {
        let label = self.field.label();
        match self.flaw {
            Flaw::Required => label.concat(" field is required"),
            Flaw::Taken => label.concat(" already exist"),
            Flaw::Invalid => match self.field {
                Field::Permissions => label.concat(" are invalid"),
                Field::Roles => label.concat(" are invalid"),
                _ => label.concat(" is invalid"),
            },
            Flaw::TooShort => label.concat(" must be at least 6 characters"),
            Flaw::NoUppercase => label.concat(" must contain at least 1 uppercase character"),
            Flaw::NoDigit => label.concat(" must contain at least 1 digit"),
            Flaw::NoSpecial => label.concat(" must contain at least 1 special character"),
            Flaw::Mismatch => label.concat(" must match new password"),
        }
    }
}

} // verus!
