//! The access token: claims about a principal, signed with a shared secret.

use crate::clock::unix_now;
use crate::models::user::SlimUser;
use crate::text::same_text;
use jsonwebtoken::errors::ErrorKind;
use jsonwebtoken::{decode, encode, Algorithm, DecodingKey, EncodingKey, Header, Validation};
use serde_json::Value;
use vstd::prelude::*;

verus! {

/// The subject that every access token bears.
pub const TOKEN_SUBJECT: &'static str = "auth";

/// The number of seconds for which an access token is taken: a day.
pub const TOKEN_LIFETIME_SECONDS: i64 = 86400;

/// What an access token says.
#[derive(Debug)]
pub struct Claims {
    /// Who issued the token.
    pub iss: String,
    /// What the token is for.
    pub sub: String,
    /// When it was issued, in seconds since the epoch.
    pub iat: i64,
    /// The last second at which it is taken.
    pub exp: i64,
    /// The principal.
    pub id: String,
}

/// What the claims of a token hold.
pub struct ClaimsView {
    pub iss: Seq<char>,
    pub sub: Seq<char>,
    pub iat: i64,
    pub exp: i64,
    pub id: Seq<char>,
}

impl View for Claims {
    type V = ClaimsView;

    open spec fn view(&self) -> ClaimsView {
        ClaimsView { iss: self.iss@, sub: self.sub@, iat: self.iat, exp: self.exp, id: self.id@ }
    }
}

/// The claims of a token as they were read: each one is absent where the token does
/// not hold it, or holds it as another kind of value.
#[derive(Debug)]
pub struct RawClaims {
    pub iss: Option<String>,
    pub sub: Option<String>,
    pub iat: Option<i64>,
    pub exp: Option<i64>,
    pub id: Option<String>,
}

/// What claims that were read hold.
pub struct RawClaimsView {
    pub iss: Option<Seq<char>>,
    pub sub: Option<Seq<char>>,
    pub iat: Option<i64>,
    pub exp: Option<i64>,
    pub id: Option<Seq<char>>,
}

/// What a text that may be absent holds.
pub open spec fn text_of(text: Option<String>) -> Option<Seq<char>> {
    match text {
        Some(t) => Some(t@),
        None => None,
    }
}

impl View for RawClaims {
    type V = RawClaimsView;

    open spec fn view(&self) -> RawClaimsView {
        RawClaimsView {
            iss: text_of(self.iss),
            sub: text_of(self.sub),
            iat: self.iat,
            exp: self.exp,
            id: text_of(self.id),
        }
    }
}

/// Why a token could not be read.
#[derive(Clone, Copy, Debug, PartialEq, Eq, Structural)]
pub enum JwtFailure {
    /// The text is not three parts joined by dots.
    InvalidToken,
    /// The signature is not the one that the secret gives.
    InvalidSignature,
    /// The token names another algorithm than the one tokens are signed with here.
    InvalidAlgorithm,
    /// A part is not what it must be: its encoding, or the JSON in it.
    Other,
}

/// Why an access token was not taken.
#[derive(Clone, Copy, Debug, PartialEq, Eq, Structural)]
pub enum DecodeError {
    /// The text is no token, or its claims are not those of an access token.
    MalformedToken,
    /// The token was not signed with the secret, or not with the algorithm, of this
    /// process.
    BadSignature,
    /// The token's last second has passed.
    Expired,
}

/// The names under which a token bears its claims.
pub const ISSUER_CLAIM: &'static str = "iss";

pub const SUBJECT_CLAIM: &'static str = "sub";

pub const ISSUED_AT_CLAIM: &'static str = "iat";

pub const EXPIRY_CLAIM: &'static str = "exp";

pub const PRINCIPAL_CLAIM: &'static str = "id";

/// What a member of a token's claims holds: a text, a whole number, or something else.
#[derive(Debug)]
pub enum ClaimValue {
    Text(String),
    Number(i64),
    Other,
}

/// A member of a token's claims.
#[derive(Debug)]
pub struct Claim {
    pub name: String,
    pub value: ClaimValue,
}

/// What a member's value holds.
pub enum ClaimValueView {
    Text(Seq<char>),
    Number(i64),
    Other,
}

/// What a member holds.
pub struct ClaimView {
    pub name: Seq<char>,
    pub value: ClaimValueView,
}

impl View for Claim {
    type V = ClaimView;

    open spec fn view(&self) -> ClaimView {
        ClaimView {
            name: self.name@,
            value: match self.value {
                ClaimValue::Text(text) => ClaimValueView::Text(text@),
                ClaimValue::Number(number) => ClaimValueView::Number(number),
                ClaimValue::Other => ClaimValueView::Other,
            },
        }
    }
}

/// What a list of members holds.
pub open spec fn claim_views(list: Seq<Claim>) -> Seq<ClaimView> {
    Seq::new(list.len(), |i: int| list[i]@)
}

/// What a list of names and texts holds.
pub open spec fn text_pairs(list: Seq<(String, String)>) -> Seq<(Seq<char>, Seq<char>)> {
    Seq::new(list.len(), |i: int| (list[i].0@, list[i].1@))
}

/// What a list of names and numbers holds.
pub open spec fn number_pairs(list: Seq<(String, i64)>) -> Seq<(Seq<char>, i64)> {
    Seq::new(list.len(), |i: int| (list[i].0@, list[i].1))
}

/// The token whose claims are the members of these names and values, the texts first,
/// signed with the secret by HMAC with SHA-512; `None` where no token can be made.
pub uninterp spec fn hs512_encoded(
    texts: Seq<(Seq<char>, Seq<char>)>,
    numbers: Seq<(Seq<char>, i64)>,
    secret: Seq<char>,
) -> Option<Seq<char>>;

/// What reading a token with the secret gives, the token's times left aside: the
/// members of its claims, or the reason why it cannot be read.
pub uninterp spec fn hs512_decoded(token: Seq<char>, secret: Seq<char>) -> Result<Seq<ClaimView>, JwtFailure>;

/// How many dots the text holds.
pub open spec fn dots(text: Seq<char>) -> nat
    decreases text.len(),
{
    if text.len() == 0 {
        0
    } else {
        dots(text.drop_last()) + if text.last() == '.' {
            1nat
        } else {
            0nat
        }
    }
}

/// The token could not be read because it is not three parts joined by dots.
pub open spec fn is_invalid_token(read: Result<Vec<Claim>, JwtFailure>) -> bool {
    read matches Err(failure) && failure == JwtFailure::InvalidToken
}

/// What the result of reading a token holds.
pub open spec fn read_view(read: Result<Vec<Claim>, JwtFailure>) -> Result<Seq<ClaimView>, JwtFailure> {
    match read {
        Ok(list) => Ok(claim_views(list@)),
        Err(failure) => Err(failure),
    }
}

/// What the result of reading a token's claims holds.
pub open spec fn decoded_view(decoded: Result<RawClaims, JwtFailure>) -> Result<RawClaimsView, JwtFailure> {
    match decoded {
        Ok(claims) => Ok(claims@),
        Err(failure) => Err(failure),
    }
}

/// The member that was read under `name`: a text where one was found, else a number
/// where one was found, else something else.
pub fn claim_of(name: String, text: Option<String>, number: Option<i64>) -> (r: Claim)
    ensures
        r.name == name,
        match (text, number) {
            (Some(t), _) => r.value matches ClaimValue::Text(same) && same == t,
            (None, Some(n)) => r.value matches ClaimValue::Number(same) && same == n,
            (None, None) => r.value is Other,
        },
{
    let value = match (text, number) {
        (Some(t), _) => ClaimValue::Text(t),
        (None, Some(n)) => ClaimValue::Number(n),
        (None, None) => ClaimValue::Other,
    };
    Claim { name, value }
}

/// Signs claims.
///
/// Trusted: `jsonwebtoken::encode` with a header for `HS512`, the members as a JSON
/// object, each text and each number under its name, and the secret's bytes as the key.
/// The token is a function of the members and the secret alone, which is all that is
/// claimed: the result is what `hs512_encoded` names.
#[verifier::external_body]
fn sign_claims(texts: &Vec<(String, String)>, numbers: &Vec<(String, i64)>, secret: &str) -> (r: Option<String>)
    ensures
        text_of(r) == hs512_encoded(text_pairs(texts@), number_pairs(numbers@), secret@),
{
    let texts = texts.iter().map(|pair| (pair.0.clone(), Value::from(pair.1.as_str())));
    let numbers = numbers.iter().map(|pair| (pair.0.clone(), Value::from(pair.1)));
    let claims: serde_json::Map<String, Value> = texts.chain(numbers).collect();
    encode(&Header::new(Algorithm::HS512), &claims, &EncodingKey::from_secret(secret.as_bytes())).ok()
}

/// Reads a token and checks its signature.
///
/// Trusted: `jsonwebtoken::decode` with the secret's bytes as the key and a validation
/// that admits `HS512` alone and does not look at the expiry, so that the result is a
/// function of the token and the secret alone: it is what `hs512_decoded` names. The
/// members of the claims are handed out as the JSON object holds them, each with its
/// text where it is a text and with its number where it is a whole number. Of the
/// reasons for a failure it tells three apart and hands out every other as `Other`.
/// `decode` splits the token at its last two dots before it does anything else, and
/// gives up with `InvalidToken` where there are fewer. (`decode` reads the system clock
/// even so, and stops the process where that clock stands before 1970.)
#[verifier::external_body]
fn read_token(token: &str, secret: &str) -> (r: Result<Vec<Claim>, JwtFailure>)
    ensures
        read_view(r) == hs512_decoded(token@, secret@),
        dots(token@) < 2 ==> is_invalid_token(r),
{
    let mut validation = Validation::new(Algorithm::HS512);
    validation.validate_exp = false;
    match decode::<serde_json::Map<String, Value>>(token, &DecodingKey::from_secret(secret.as_bytes()), &validation) {
        Err(error) => Err(match error.kind() {
            ErrorKind::InvalidToken => JwtFailure::InvalidToken,
            ErrorKind::InvalidSignature => JwtFailure::InvalidSignature,
            ErrorKind::InvalidAlgorithm => JwtFailure::InvalidAlgorithm,
            _ => JwtFailure::Other,
        }),
        Ok(data) => Ok(data.claims.iter().map(|(name, value)| claim_of(name.clone(), value.as_str().map(str::to_owned), value.as_i64())).collect()),
    }
}

/// The texts that a token bears for these claims, each under its name.
pub open spec fn text_claims(claims: ClaimsView) -> Seq<(Seq<char>, Seq<char>)> {
    seq![(ISSUER_CLAIM@, claims.iss), (SUBJECT_CLAIM@, claims.sub), (PRINCIPAL_CLAIM@, claims.id)]
}

/// The numbers that a token bears for these claims, each under its name.
pub open spec fn number_claims(claims: ClaimsView) -> Seq<(Seq<char>, i64)> {
    seq![(ISSUED_AT_CLAIM@, claims.iat), (EXPIRY_CLAIM@, claims.exp)]
}

/// Where the first member of this name stands, among the first `upto`.
pub open spec fn claim_index(list: Seq<ClaimView>, name: Seq<char>, upto: int) -> Option<int>
    decreases upto,
{
    if upto <= 0 {
        None
    } else {
        match claim_index(list, name, upto - 1) {
            Some(i) => Some(i),
            None => if list[upto - 1].name == name {
                Some(upto - 1)
            } else {
                None
            },
        }
    }
}

/// The text that the claims hold under `name`; `None` where they have no member of
/// this name, or one that is no text.
pub open spec fn named_text(list: Seq<ClaimView>, name: Seq<char>) -> Option<Seq<char>> {
    match claim_index(list, name, list.len() as int) {
        Some(i) => match list[i].value {
            ClaimValueView::Text(text) => Some(text),
            _ => None,
        },
        None => None,
    }
}

/// The number that the claims hold under `name`; `None` where they have no member of
/// this name, or one that is no whole number.
pub open spec fn named_number(list: Seq<ClaimView>, name: Seq<char>) -> Option<i64> {
    match claim_index(list, name, list.len() as int) {
        Some(i) => match list[i].value {
            ClaimValueView::Number(number) => Some(number),
            _ => None,
        },
        None => None,
    }
}

/// The five claims of an access token as the members hold them.
pub open spec fn raw_claims_of(list: Seq<ClaimView>) -> RawClaimsView {
    RawClaimsView {
        iss: named_text(list, ISSUER_CLAIM@),
        sub: named_text(list, SUBJECT_CLAIM@),
        iat: named_number(list, ISSUED_AT_CLAIM@),
        exp: named_number(list, EXPIRY_CLAIM@),
        id: named_text(list, PRINCIPAL_CLAIM@),
    }
}

/// What reading a token with the secret gives of the five claims of an access token,
/// or the reason why it cannot be read.
pub open spec fn hs512_claims(token: Seq<char>, secret: Seq<char>) -> Result<RawClaimsView, JwtFailure> {
    match hs512_decoded(token, secret) {
        Ok(list) => Ok(raw_claims_of(list)),
        Err(failure) => Err(failure),
    }
}

/// A member that is found among the first is the one found among more.
proof fn lemma_claim_index_stays(list: Seq<ClaimView>, name: Seq<char>, upto: int, more: int)
    requires
        0 <= upto <= more,
        claim_index(list, name, upto) is Some,
    ensures
        claim_index(list, name, more) == claim_index(list, name, upto),
    decreases more - upto,
{
    if upto < more {
        lemma_claim_index_stays(list, name, upto, more - 1);
    }
}

fn find_claim(list: &Vec<Claim>, name: &str) -> (r: Option<usize>)
    ensures
        match r {
            Some(i) => i < list@.len() && claim_index(claim_views(list@), name@, list@.len() as int) == Some(i as int),
            None => claim_index(claim_views(list@), name@, list@.len() as int) is None,
        },
{
    let mut i: usize = 0;
    while i < list.len()
        invariant
            0 <= i <= list@.len(),
            claim_index(claim_views(list@), name@, i as int) is None,
        decreases list@.len() - i,
    {
        if same_text(list[i].name.as_str(), name) {
            proof {
                assert(claim_views(list@)[i as int].name == name@);
                lemma_claim_index_stays(claim_views(list@), name@, i + 1, list@.len() as int);
            }
            return Some(i);
        }
        proof {
            assert(claim_views(list@)[i as int].name != name@);
        }
        i += 1;
    }
    None
}

/// The text that the members hold under `name`.
pub fn claim_text(list: &Vec<Claim>, name: &str) -> (r: Option<String>)
    ensures
        text_of(r) == named_text(claim_views(list@), name@),
{
    match find_claim(list, name) {
        Some(i) => match &list[i].value {
            ClaimValue::Text(text) => Some(text.clone()),
            _ => None,
        },
        None => None,
    }
}

/// The number that the members hold under `name`.
pub fn claim_number(list: &Vec<Claim>, name: &str) -> (r: Option<i64>)
    ensures
        r == named_number(claim_views(list@), name@),
{
    match find_claim(list, name) {
        Some(i) => match &list[i].value {
            ClaimValue::Number(number) => Some(*number),
            _ => None,
        },
        None => None,
    }
}

/// The five claims of an access token as the members hold them.
pub fn raw_claims(list: &Vec<Claim>) -> (r: RawClaims)
    ensures
        r@ == raw_claims_of(claim_views(list@)),
{
    RawClaims {
        iss: claim_text(list, ISSUER_CLAIM),
        sub: claim_text(list, SUBJECT_CLAIM),
        iat: claim_number(list, ISSUED_AT_CLAIM),
        exp: claim_number(list, EXPIRY_CLAIM),
        id: claim_text(list, PRINCIPAL_CLAIM),
    }
}

/// The claims of an access token for `id`, issued by `issuer` at `now` and taken for
/// `ttl` seconds; `None` where the last second cannot be held.
pub open spec fn claims_for(id: Seq<char>, issuer: Seq<char>, now: i64, ttl: i64) -> Option<ClaimsView> {
    if i64::MIN <= now + ttl <= i64::MAX {
        Some(ClaimsView { iss: issuer, sub: TOKEN_SUBJECT@, iat: now, exp: (now + ttl) as i64, id })
    } else {
        None
    }
}

/// The access token for `id`, issued by `issuer` at `now`, taken for `ttl` seconds and
/// signed with `secret`; `None` where it cannot be made.
pub open spec fn issued_token(id: Seq<char>, issuer: Seq<char>, secret: Seq<char>, now: i64, ttl: i64) -> Option<
    Seq<char>,
> {
    match claims_for(id, issuer, now, ttl) {
        Some(claims) => hs512_encoded(text_claims(claims), number_claims(claims), secret),
        None => None,
    }
}

/// What becomes of a token that was read, at `now`: the principal it names, or the
/// reason why it is not taken.
///
/// A wrong signature and a foreign algorithm both say that the token was not signed
/// here. Every other failure to read it, and a token that lacks one of the five claims,
/// make it malformed. A token is expired from the second after its last one.
pub open spec fn decode_outcome(decoded: Result<RawClaimsView, JwtFailure>, now: i64) -> Result<
    Seq<char>,
    DecodeError,
> {
    match decoded {
        Err(JwtFailure::InvalidSignature) => Err(DecodeError::BadSignature),
        Err(JwtFailure::InvalidAlgorithm) => Err(DecodeError::BadSignature),
        Err(_) => Err(DecodeError::MalformedToken),
        Ok(claims) => if claims.iss is None || claims.sub is None || claims.iat is None || claims.exp is None
            || claims.id is None {
            Err(DecodeError::MalformedToken)
        } else if claims.exp->0 < now {
            Err(DecodeError::Expired)
        } else {
            Ok(claims.id->0)
        },
    }
}

/// `r` is the sender that `outcome` stands for: the principal without its token, or
/// the same failure.
pub open spec fn is_sender(r: Result<SlimUser, DecodeError>, outcome: Result<Seq<char>, DecodeError>) -> bool {
    match outcome {
        Ok(id) => r matches Ok(user) && text_of(user.id) == Some(id) && user.token is None,
        Err(error) => r == Err::<SlimUser, DecodeError>(error),
    }
}

impl Claims {
    /// The texts among the claims, each under its name.
    pub fn texts(&self) -> (r: Vec<(String, String)>)
        ensures
            text_pairs(r@) == text_claims(self@),
    {
        let mut list: Vec<(String, String)> = Vec::new();
        list.push((ISSUER_CLAIM.to_owned(), self.iss.clone()));
        list.push((SUBJECT_CLAIM.to_owned(), self.sub.clone()));
        list.push((PRINCIPAL_CLAIM.to_owned(), self.id.clone()));
        proof {
            assert(text_pairs(list@) =~= text_claims(self@));
        }
        list
    }

    /// The numbers among the claims, each under its name.
    pub fn numbers(&self) -> (r: Vec<(String, i64)>)
        ensures
            number_pairs(r@) == number_claims(self@),
    {
        let mut list: Vec<(String, i64)> = Vec::new();
        list.push((ISSUED_AT_CLAIM.to_owned(), self.iat));
        list.push((EXPIRY_CLAIM.to_owned(), self.exp));
        proof {
            assert(number_pairs(list@) =~= number_claims(self@));
        }
        list
    }

    /// The claims of an access token for `id`, issued by `issuer` at `now` and taken
    /// for `ttl` seconds.
    pub fn with_id_at(id: &str, issuer: &str, now: i64, ttl: i64) -> (r: Option<Claims>)
        ensures
            match r {
                Some(claims) => claims_for(id@, issuer@, now, ttl) == Some(claims@),
                None => claims_for(id@, issuer@, now, ttl) is None,
            },
    {
        match now.checked_add(ttl) {
            Some(exp) => Some(
                Claims { iss: issuer.to_owned(), sub: TOKEN_SUBJECT.to_owned(), iat: now, exp, id: id.to_owned() },
            ),
            None => None,
        }
    }
}

/// Issues the access token for `id` at `now`.
pub fn create_token_at(id: &str, issuer: &str, secret: &str, now: i64, ttl: i64) -> (r: Option<String>)
    ensures
        text_of(r) == issued_token(id@, issuer@, secret@, now, ttl),
{
    match Claims::with_id_at(id, issuer, now, ttl) {
        Some(claims) => sign_claims(&claims.texts(), &claims.numbers(), secret),
        None => None,
    }
}

/// Issues the access token for `id` at the present moment, to be taken for a day.
pub fn create_token(id: &str, issuer: &str, secret: &str) -> (r: Option<String>)
    ensures
        exists|now: i64| text_of(r) == #[trigger] issued_token(id@, issuer@, secret@, now, TOKEN_LIFETIME_SECONDS),
{
    let now = unix_now();
    create_token_at(id, issuer, secret, now, TOKEN_LIFETIME_SECONDS)
}

/// Decides at `now` on a token that was read.
pub fn principal_of(decoded: Result<RawClaims, JwtFailure>, now: i64) -> (r: Result<SlimUser, DecodeError>)
    ensures
        is_sender(r, decode_outcome(decoded_view(decoded), now)),
{
    match decoded {
        Err(JwtFailure::InvalidSignature) => Err(DecodeError::BadSignature),
        Err(JwtFailure::InvalidAlgorithm) => Err(DecodeError::BadSignature),
        Err(_) => Err(DecodeError::MalformedToken),
        Ok(claims) => {
            match (claims.iss, claims.sub, claims.iat, claims.exp, claims.id) {
                (Some(_), Some(_), Some(_), Some(exp), Some(id)) => {
                    if exp < now {
                        Err(DecodeError::Expired)
                    } else {
                        Ok(SlimUser { id: Some(id), token: None })
                    }
                },
                _ => Err(DecodeError::MalformedToken),
            }
        },
    }
}

/// Reads an access token at `now`: the principal it names, where it was signed with
/// `secret` and its last second has not passed. A text with fewer than two dots is
/// malformed.
pub fn decode_token_at(token: &str, secret: &str, now: i64) -> (r: Result<SlimUser, DecodeError>)
    ensures
        is_sender(r, decode_outcome(hs512_claims(token@, secret@), now)),
        dots(token@) < 2 ==> r == Err::<SlimUser, DecodeError>(DecodeError::MalformedToken),
{
    let decoded = match read_token(token, secret) {
        Ok(list) => Ok(raw_claims(&list)),
        Err(failure) => Err(failure),
    };
    principal_of(decoded, now)
}

/// Reads an access token at the present moment. Why a token was not taken is not said.
pub fn decode_token(token: &str, secret: &str) -> (r: Option<SlimUser>)
    ensures
        exists|now: i64|
            match #[trigger] decode_outcome(hs512_claims(token@, secret@), now) {
                Ok(id) => r matches Some(user) && text_of(user.id) == Some(id) && user.token is None,
                Err(_) => r is None,
            },
{
    let now = unix_now();
    match decode_token_at(token, secret, now) {
        Ok(user) => Some(user),
        Err(_) => None,
    }
}

} // verus!
