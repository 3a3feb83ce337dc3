//! Salts and password digests.

use crate::random::random_index;
use vstd::prelude::*;
use vstd::string::*;
use vstd::utf8::{encode_utf8, is_ascii_chars};

verus! {

/// The characters of which a salt is made.
pub const CHARSET: &'static str = "ABCDEFGHIJKLMNOPQRSTUVWXYZabcdefghijklmnopqrstuvwxyz0123456789)(*&^%$#@!~";

/// The number of characters in `CHARSET`.
pub const CHARSET_LEN: usize = 73;

/// The number of characters of a salt.
pub const PASSWORD_LEN: usize = 128;

/// The least number of bytes of a salt that can be hashed with.
pub const MIN_SALT_BYTES: usize = 8;

/// The greatest number of bytes of a password, and of a salt, that can be hashed.
pub const MAX_INPUT_BYTES: usize = 0xffff_ffff;

/// The number of bytes of a digest.
pub const HASH_LEN: usize = 32;

/// The Argon2i digest of the password with the salt: 32 bytes, made in three passes
/// on one lane over 4096 KiB, without a secret and without associated data.
pub uninterp spec fn argon2i_digest(password: Seq<char>, salt: Seq<char>) -> Seq<u8>;

/// The password and the salt are such that a digest can be made of them: the salt
/// has eight bytes at least, and neither has more than 2^32 - 1.
pub open spec fn hashable(password: Seq<char>, salt: Seq<char>) -> bool {
    &&& encode_utf8(password).len() <= MAX_INPUT_BYTES
    &&& MIN_SALT_BYTES <= encode_utf8(salt).len() <= MAX_INPUT_BYTES
}

/// The digest of the password with the salt, where one can be made of them.
pub open spec fn digest_of(password: Seq<char>, salt: Seq<char>) -> Option<Seq<u8>> {
    if hashable(password, salt) {
        Some(argon2i_digest(password, salt))
    } else {
        None
    }
}

/// The digest of a password.
///
/// Trusted: `argon2i_simple` of `argon2rs`, which is a function of its two arguments
/// alone and returns an array of 32 bytes. It stops the process on a salt of fewer than
/// 8 bytes and on a password or a salt of more than 2^32 - 1 bytes, which `requires`
/// rules out.
#[verifier::external_body]
fn argon2i(password: &str, salt: &str) -> (r: Vec<u8>)
    requires
        hashable(password@, salt@),
    ensures
        r@ == argon2i_digest(password@, salt@),
        r@.len() == HASH_LEN,
{
    argon2rs::argon2i_simple(password, salt).to_vec()
}

/// The digest of the password with the salt.
pub fn make_hash(password: &str, salt: &str) -> (r: Vec<u8>)
    requires
        hashable(password@, salt@),
    ensures
        r@ == argon2i_digest(password@, salt@),
        r@.len() == HASH_LEN,
{
    argon2i(password, salt)
}

/// The digest of the password with the salt, or nothing where no digest can be made
/// of them.
pub fn try_make_hash(password: &str, salt: &str) -> (r: Option<Vec<u8>>)
    ensures
        match r {
            Some(hash) => digest_of(password@, salt@) == Some(hash@) && hash@.len() == HASH_LEN,
            None => digest_of(password@, salt@) is None,
        },
{
    let password_bytes = password.as_bytes().len();
    let salt_bytes = salt.as_bytes().len();
    if password_bytes <= MAX_INPUT_BYTES && MIN_SALT_BYTES <= salt_bytes && salt_bytes <= MAX_INPUT_BYTES {
        Some(make_hash(password, salt))
    } else {
        None
    }
}

/// Whether two lists hold the same bytes.
pub fn same_bytes(a: &Vec<u8>, b: &Vec<u8>) -> (r: bool)
    ensures
        r == (a@ == b@),
{
    if a.len() != b.len() {
        return false;
    }
    let mut i: usize = 0;
    while i < a.len()
        invariant
            0 <= i <= a@.len(),
            a@.len() == b@.len(),
            forall|k: int| 0 <= k < i ==> a@[k] == b@[k],
        decreases a@.len() - i,
    {
        if a[i] != b[i] {
            return false;
        }
        i += 1;
    }
    assert(a@ =~= b@);
    true
}

/// A new salt: 128 characters, each drawn at random from `CHARSET`.
pub fn make_salt() -> (r: String)
    ensures
        r@.len() == PASSWORD_LEN,
        forall|i: int| 0 <= i < r@.len() ==> CHARSET@.contains(#[trigger] r@[i]),
{
    proof {
        reveal_strlit("ABCDEFGHIJKLMNOPQRSTUVWXYZabcdefghijklmnopqrstuvwxyz0123456789)(*&^%$#@!~");
        assert(CHARSET@.len() == CHARSET_LEN);
        assert(is_ascii_chars(CHARSET@));
    }
    let mut salt = String::new();
    let mut n: usize = 0;
    while n < PASSWORD_LEN
        invariant
            0 <= n <= PASSWORD_LEN,
            salt@.len() == n,
            CHARSET@.len() == CHARSET_LEN,
            is_ascii_chars(CHARSET@),
            forall|i: int| 0 <= i < salt@.len() ==> CHARSET@.contains(#[trigger] salt@[i]),
        decreases PASSWORD_LEN - n,
    {
        let idx = random_index(CHARSET_LEN);
        let picked = CHARSET.substring_ascii(idx, idx + 1);
        let ghost before = salt@;
        salt.append(picked);
        proof {
            assert(picked@ =~= seq![CHARSET@[idx as int]]);
            assert(salt@ =~= before.push(CHARSET@[idx as int]));
            assert(CHARSET@.contains(CHARSET@[idx as int]));
        }
        n += 1;
    }
    salt
}

} // verus!
