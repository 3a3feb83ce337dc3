//! What a sender hands in, and the rules on its form.

use crate::errors::{violation_views, FieldViolation, SrvError, ViolationView};
use crate::models::external_user_provider::UserProvider;
use vstd::prelude::*;

verus! {

/// What a new principal hands in.
#[derive(Debug)]
pub struct UserRegisterInput {
    pub email: String,
    pub name: String,
    pub password: String,
}

/// What a principal of another provider hands in.
#[derive(Debug)]
pub struct UserExternalDataInput {
    /// The token that the provider gave.
    pub token: String,
    pub provider: UserProvider,
}

/// What a principal hands in to log in.
#[derive(Debug)]
pub struct UserLoginInput {
    pub email: String,
    pub password: String,
}

/// What a principal hands in to change its e-mail address, its password, or both.
#[derive(Debug)]
pub struct UserUpdateInput {
    pub email: Option<String>,
    pub password: Option<String>,
}

pub const EMAIL_FIELD: &'static str = "email";

pub const NAME_FIELD: &'static str = "name";

pub const PASSWORD_FIELD: &'static str = "password";

pub const EMAIL_CODE: &'static str = "email";

pub const LENGTH_CODE: &'static str = "length";

pub const EMAIL_MESSAGE: &'static str = "This value should be a E-Mail";

/// The least number of characters of a password.
pub const MIN_PASSWORD_LEN: u64 = 6;

/// The greatest number of characters of a name.
pub const MAX_NAME_LEN: u64 = 255;

/// Whether the text has the form of an e-mail address, by the rules of HTML5 for the
/// part before the `@` and of a host name or a bracketed IP address for the part behind
/// it.
pub uninterp spec fn has_email_form(text: Seq<char>) -> bool;

/// Whether a text has the form of an e-mail address.
///
/// Trusted: `validate_email` of `validator`, which is a function of the text alone.
/// The result is what `has_email_form` names.
#[verifier::external_body]
fn email_is_valid(text: &str) -> (r: bool)
    ensures
        r == has_email_form(text@),
{
    validator::validate_email(text)
}

/// The number of characters of the text is `min` at least and `max` at most, where
/// these are given.
pub open spec fn within_length(text: Seq<char>, min: Option<u64>, max: Option<u64>) -> bool {
    &&& min is Some ==> text.len() >= min->0
    &&& max is Some ==> text.len() <= max->0
}

/// Whether the text has as many characters as is asked.
///
/// Trusted: `validate_length` of `validator` with a `Validator::Length` that has no
/// `equal`. For a text it counts characters, not bytes, and compares the count with
/// `min` and with `max` where they are given.
#[verifier::external_body]
fn length_is_valid(text: &str, min: Option<u64>, max: Option<u64>) -> (r: bool)
    ensures
        r == within_length(text@, min, max),
{
    validator::validate_length(validator::Validator::Length { min, max, equal: None }, text)
}

/// The rule on e-mail addresses that `email` breaks, if it breaks it.
pub open spec fn email_violations(email: Seq<char>) -> Seq<ViolationView> {
    if has_email_form(email) {
        seq![]
    } else {
        seq![ViolationView { field: EMAIL_FIELD@, code: EMAIL_CODE@, message: Some(EMAIL_MESSAGE@) }]
    }
}

/// The rule on lengths that the text of `field` breaks, if it breaks it.
pub open spec fn length_violations(field: Seq<char>, text: Seq<char>, min: Option<u64>, max: Option<u64>) -> Seq<
    ViolationView,
> {
    if within_length(text, min, max) {
        seq![]
    } else {
        seq![ViolationView { field, code: LENGTH_CODE@, message: None }]
    }
}

/// `r` is the verdict on an input that breaks these rules: none broken is `Ok`, else
/// the failure lists them.
pub open spec fn is_verdict(r: Result<(), SrvError>, broken: Seq<ViolationView>) -> bool {
    if broken.len() == 0 {
        r is Ok
    } else {
        r matches Err(SrvError::ValidationError(list)) && violation_views(list@) == broken
    }
}

fn check_email(list: &mut Vec<FieldViolation>, email: &str)
    ensures
        violation_views(final(list)@) == violation_views(old(list)@) + email_violations(email@),
{
    if !email_is_valid(email) {
        list.push(
            FieldViolation {
                field: EMAIL_FIELD.to_owned(),
                code: EMAIL_CODE.to_owned(),
                message: Some(EMAIL_MESSAGE.to_owned()),
            },
        );
    }
    proof {
        assert(violation_views(list@) =~= violation_views(old(list)@) + email_violations(email@));
    }
}

fn check_length(list: &mut Vec<FieldViolation>, field: &str, text: &str, min: Option<u64>, max: Option<u64>)
    ensures
        violation_views(final(list)@) == violation_views(old(list)@) + length_violations(field@, text@, min, max),
{
    if !length_is_valid(text, min, max) {
        list.push(FieldViolation { field: field.to_owned(), code: LENGTH_CODE.to_owned(), message: None });
    }
    proof {
        assert(violation_views(list@) =~= violation_views(old(list)@) + length_violations(
            field@,
            text@,
            min,
            max,
        ));
    }
}

fn verdict(list: Vec<FieldViolation>) -> (r: Result<(), SrvError>)
    ensures
        is_verdict(r, violation_views(list@)),
{
    if list.len() == 0 {
        Ok(())
    } else {
        Err(SrvError::ValidationError(list))
    }
}

impl UserRegisterInput {
    /// The rules that this input breaks, in the order of its fields: the e-mail
    /// address has the form of one, the name has 1 to 255 characters, the password 6
    /// at least.
    pub open spec fn violations(&self) -> Seq<ViolationView> {
        email_violations(self.email@) + length_violations(NAME_FIELD@, self.name@, Some(1), Some(MAX_NAME_LEN))
            + length_violations(PASSWORD_FIELD@, self.password@, Some(MIN_PASSWORD_LEN), None)
    }

    /// Holds the input to its rules.
    pub fn validate(&self) -> (r: Result<(), SrvError>)
        ensures
            is_verdict(r, self.violations()),
    {
        let mut list: Vec<FieldViolation> = Vec::new();
        assert(violation_views(list@) =~= seq![]);
        check_email(&mut list, self.email.as_str());
        check_length(&mut list, NAME_FIELD, self.name.as_str(), Some(1), Some(MAX_NAME_LEN));
        check_length(&mut list, PASSWORD_FIELD, self.password.as_str(), Some(MIN_PASSWORD_LEN), None);
        assert(violation_views(list@) =~= self.violations());
        verdict(list)
    }
}

impl UserLoginInput {
    /// The rules that this input breaks, in the order of its fields: the e-mail
    /// address has the form of one, the password has 6 characters at least.
    pub open spec fn violations(&self) -> Seq<ViolationView> {
        email_violations(self.email@) + length_violations(
            PASSWORD_FIELD@,
            self.password@,
            Some(MIN_PASSWORD_LEN),
            None,
        )
    }

    /// Holds the input to its rules.
    pub fn validate(&self) -> (r: Result<(), SrvError>)
        ensures
            is_verdict(r, self.violations()),
    {
        let mut list: Vec<FieldViolation> = Vec::new();
        assert(violation_views(list@) =~= seq![]);
        check_email(&mut list, self.email.as_str());
        check_length(&mut list, PASSWORD_FIELD, self.password.as_str(), Some(MIN_PASSWORD_LEN), None);
        assert(violation_views(list@) =~= self.violations());
        verdict(list)
    }
}

impl UserUpdateInput {
    /// The rules that this input breaks, in the order of its fields: an e-mail address
    /// that is given has the form of one, a password that is given has 6 characters at
    /// least.
    pub open spec fn violations(&self) -> Seq<ViolationView> {
        (match self.email {
            Some(email) => email_violations(email@),
            None => seq![],
        }) + (match self.password {
            Some(password) => length_violations(PASSWORD_FIELD@, password@, Some(MIN_PASSWORD_LEN), None),
            None => seq![],
        })
    }

    /// Holds the input to its rules.
    pub fn validate(&self) -> (r: Result<(), SrvError>)
        ensures
            is_verdict(r, self.violations()),
    {
        let mut list: Vec<FieldViolation> = Vec::new();
        assert(violation_views(list@) =~= seq![]);
        if let Some(email) = &self.email {
            check_email(&mut list, email.as_str());
        }
        if let Some(password) = &self.password {
            check_length(&mut list, PASSWORD_FIELD, password.as_str(), Some(MIN_PASSWORD_LEN), None);
        }
        assert(violation_views(list@) =~= self.violations());
        verdict(list)
    }
}

} // verus!
