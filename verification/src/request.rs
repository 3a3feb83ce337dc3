//! From what a request carries to its sender: the token in a header, or in the
//! payload that opens a subscription.

use crate::clock::unix_now;
use crate::jwt::{decode_outcome, decode_token_at, hs512_claims, text_of};
use crate::models::user::SlimUser;
use crate::text::same_text;
use vstd::prelude::*;

verus! {

/// The word that stands before a token in the authorization header.
pub const BEARER: &'static str = "Bearer";

/// The names under which a payload may hold the token, in the order in which they
/// are looked for.
pub const AUTH_TOKEN_KEY: &'static str = "authToken";

pub const AUTH_KEY_KEY: &'static str = "authKey";

pub const AUTHORIZATION_KEY: &'static str = "authorization";

pub const AUTHORIZATION_CAPITAL_KEY: &'static str = "Authorization";

/// What a member of a payload holds: a text, or something else.
#[derive(Debug)]
pub enum FieldValue {
    Text(String),
    Other,
}

/// A member of a payload that is an object.
#[derive(Debug)]
pub struct PayloadField {
    pub key: String,
    pub value: FieldValue,
}

/// The payload that opens a subscription, as far as it is read: a text, an object
/// with its members, or something else.
#[derive(Debug)]
pub enum Payload {
    Text(String),
    Object(Vec<PayloadField>),
    Other,
}

/// Where the first member of this name stands, among the first `upto`.
pub open spec fn member_index(fields: Seq<PayloadField>, key: Seq<char>, upto: int) -> Option<int>
    decreases upto,
{
    if upto <= 0 {
        None
    } else {
        match member_index(fields, key, upto - 1) {
            Some(i) => Some(i),
            None => if fields[upto - 1].key@ == key {
                Some(upto - 1)
            } else {
                None
            },
        }
    }
}

/// The token that a member stands for: its text, or the empty text where it holds
/// something else.
pub open spec fn member_token(value: FieldValue) -> Seq<char> {
    match value {
        FieldValue::Text(text) => text@,
        FieldValue::Other => Seq::<char>::empty(),
    }
}

/// The member of an object that is taken for the token: the first of the four names
/// that the object has.
pub open spec fn token_member(fields: Seq<PayloadField>) -> Option<int> {
    let n = fields.len() as int;
    if member_index(fields, AUTH_TOKEN_KEY@, n) is Some {
        member_index(fields, AUTH_TOKEN_KEY@, n)
    } else if member_index(fields, AUTH_KEY_KEY@, n) is Some {
        member_index(fields, AUTH_KEY_KEY@, n)
    } else if member_index(fields, AUTHORIZATION_KEY@, n) is Some {
        member_index(fields, AUTHORIZATION_KEY@, n)
    } else {
        member_index(fields, AUTHORIZATION_CAPITAL_KEY@, n)
    }
}

/// The token that a payload holds: the payload itself where it is a text; for an
/// object the member taken for the token; nothing else.
pub open spec fn payload_token(value: Payload) -> Option<Seq<char>> {
    match value {
        Payload::Text(text) => Some(text@),
        Payload::Object(fields) => match token_member(fields@) {
            Some(i) => Some(member_token(fields@[i].value)),
            None => None,
        },
        Payload::Other => None,
    }
}

fn find_member(fields: &Vec<PayloadField>, key: &str) -> (r: Option<usize>)
    ensures
        match r {
            Some(i) => member_index(fields@, key@, fields@.len() as int) == Some(i as int) && i < fields@.len(),
            None => member_index(fields@, key@, fields@.len() as int) is None,
        },
{
    let mut i: usize = 0;
    while i < fields.len()
        invariant
            0 <= i <= fields@.len(),
            member_index(fields@, key@, i as int) is None,
        decreases fields@.len() - i,
    {
        if same_text(fields[i].key.as_str(), key) {
            proof {
                lemma_member_index_stays(fields@, key@, i + 1, fields@.len() as int);
            }
            return Some(i);
        }
        i += 1;
    }
    None
}

/// A member that is found among the first rows is the one found among more.
proof fn lemma_member_index_stays(fields: Seq<PayloadField>, key: Seq<char>, upto: int, more: int)
    requires
        0 <= upto <= more,
        member_index(fields, key, upto) is Some,
    ensures
        member_index(fields, key, more) == member_index(fields, key, upto),
    decreases more - upto,
{
    if upto < more {
        lemma_member_index_stays(fields, key, upto, more - 1);
    }
}

/// The token that the payload of a subscription holds.
pub fn token_from_value(value: &Payload) -> (r: Option<String>)
    ensures
        text_of(r) == payload_token(*value),
{
    match value {
        Payload::Text(text) => Some(text.clone()),
        Payload::Object(fields) => {
            let found = match find_member(fields, AUTH_TOKEN_KEY) {
                Some(i) => Some(i),
                None => match find_member(fields, AUTH_KEY_KEY) {
                    Some(i) => Some(i),
                    None => match find_member(fields, AUTHORIZATION_KEY) {
                        Some(i) => Some(i),
                        None => find_member(fields, AUTHORIZATION_CAPITAL_KEY),
                    },
                },
            };
            match found {
                Some(i) => match &fields[i].value {
                    FieldValue::Text(token) => Some(token.clone()),
                    FieldValue::Other => Some(String::new()),
                },
                None => None,
            }
        },
        Payload::Other => None,
    }
}

/// The text with every occurrence of the pattern taken out, from the left and without
/// overlap.
pub uninterp spec fn text_without(text: Seq<char>, pattern: Seq<char>) -> Seq<char>;

/// The text without the white space at its two ends.
pub uninterp spec fn trimmed(text: Seq<char>) -> Seq<char>;

/// Takes every occurrence of the pattern out of the text.
///
/// Trusted: `str::replace` of the standard library with the empty text as the
/// replacement, a function of its arguments alone. The result is what `text_without`
/// names.
#[verifier::external_body]
fn remove_all(text: &str, pattern: &str) -> (r: String)
    ensures
        r@ == text_without(text@, pattern@),
{
    text.replace(pattern, "")
}

/// Takes the white space off the two ends of the text.
///
/// Trusted: `str::trim` of the standard library, a function of the text alone. The
/// result is what `trimmed` names.
#[verifier::external_body]
fn trim(text: &str) -> (r: &str)
    ensures
        r@ == trimmed(text@),
{
    text.trim()
}

/// The token that an authorization header holds: the header without the word
/// `Bearer` and without white space at its ends.
pub open spec fn header_token(header: Seq<char>) -> Seq<char> {
    trimmed(text_without(header, BEARER@))
}

/// The token that an authorization header holds.
pub fn token_from_header(header: &str) -> (r: String)
    ensures
        r@ == header_token(header@),
{
    let bare = remove_all(header, BEARER);
    trim(bare.as_str()).to_owned()
}

/// `r` is the sender that bears `token`, judged with `secret` at `now`: the principal
/// that the token names together with the token, where the token is taken; a sender
/// without principal and token where it is not.
pub open spec fn is_bearer(r: SlimUser, token: Seq<char>, secret: Seq<char>, now: i64) -> bool {
    match decode_outcome(hs512_claims(token, secret), now) {
        Ok(id) => text_of(r.id) == Some(id) && text_of(r.token) == Some(token),
        Err(_) => r.id is None && r.token is None,
    }
}

/// The sender that bears `token`, judged at `now`.
pub fn user_from_token_at(token: String, secret: &str, now: i64) -> (r: SlimUser)
    ensures
        is_bearer(r, token@, secret@, now),
{
    match decode_token_at(token.as_str(), secret, now) {
        Ok(user) => SlimUser { id: user.id, token: Some(token) },
        Err(_) => SlimUser::default(),
    }
}

/// The sender of a request with this authorization header, judged at `now`. A request
/// without the header has a sender without principal and token.
pub fn from_request_at(header: Option<&str>, secret: &str, now: i64) -> (r: SlimUser)
    ensures
        match header {
            Some(value) => is_bearer(r, header_token(value@), secret@, now),
            None => r.id is None && r.token is None,
        },
{
    match header {
        Some(value) => user_from_token_at(token_from_header(value), secret, now),
        None => SlimUser::default(),
    }
}

/// The sender of a request with this authorization header, judged now.
pub fn from_request(header: Option<&str>, secret: &str) -> (r: SlimUser)
    ensures
        match header {
            Some(value) => exists|now: i64| #[trigger] is_bearer(r, header_token(value@), secret@, now),
            None => r.id is None && r.token is None,
        },
{
    let now = unix_now();
    let r = from_request_at(header, secret, now);
    proof {
        if let Some(value) = header {
            assert(is_bearer(r, header_token(value@), secret@, now));
        }
    }
    r
}

/// `r` is the sender that opens a subscription with `payload`, judged with `secret`
/// at `now`: it keeps no token; it has the principal that the payload's token names,
/// where the payload holds a token and the token is taken, and no principal else.
pub open spec fn is_subscriber(r: SlimUser, payload: Payload, secret: Seq<char>, now: i64) -> bool {
    &&& r.token is None
    &&& match payload_token(payload) {
        Some(token) => match decode_outcome(hs512_claims(token, secret), now) {
            Ok(id) => text_of(r.id) == Some(id),
            Err(_) => r.id is None,
        },
        None => r.id is None,
    }
}

/// The sender that opens a subscription with this payload, judged at `now`. The
/// sender keeps no token. A payload without a token has a sender without principal.
pub fn user_from_payload_at(payload: &Payload, secret: &str, now: i64) -> (r: SlimUser)
    ensures
        is_subscriber(r, *payload, secret@, now),
{
    match token_from_value(payload) {
        Some(token) => match decode_token_at(token.as_str(), secret, now) {
            Ok(user) => user,
            Err(_) => SlimUser::default(),
        },
        None => SlimUser::default(),
    }
}

/// The sender that opens a subscription with this payload, judged now: what
/// `user_from_payload_at` gives at the moment that the clock shows.
pub fn user_from_payload(payload: &Payload, secret: &str) -> (r: SlimUser)
    ensures
        exists|now: i64| #[trigger] is_subscriber(r, *payload, secret@, now),
{
    let now = unix_now();
    let r = user_from_payload_at(payload, secret, now);
    proof {
        assert(is_subscriber(r, *payload, secret@, now));
    }
    r
}

} // verus!
