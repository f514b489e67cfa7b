//! Signup validation and credential preparation. The account row's insertion
//! is the external store's business; which requests are acceptable, and what
//! is handed to the hasher, is decided here.

use vstd::prelude::*;

use vstd::utf8::encode_utf8;

verus! {

/// A signup or login request body.
pub struct SignupData {
    pub username: String,
    pub password: String,
}

/// A request is valid when the username has at least 3 bytes and the
/// password at least 8, counting encoded bytes, not characters.
pub open spec fn spec_signup_valid(username: Seq<char>, password: Seq<char>) -> bool {
    encode_utf8(username).len() >= 3 && encode_utf8(password).len() >= 8
}

impl SignupData {
    /// Accept a valid request unchanged; reject a short username or a short
    /// password with its exact message, the username checked first.
    pub fn validate(self) -> (r: Result<SignupData, &'static str>)
        ensures
            match r {
                Ok(d) => spec_signup_valid(self.username@, self.password@) && d.username@
                    == self.username@ && d.password@ == self.password@,
                Err(m) => !spec_signup_valid(self.username@, self.password@) && if encode_utf8(
                    self.username@,
                ).len() < 3 {
                    m@ == "Username must be at least 3 characters"@
                } else {
                    m@ == "Password must be at least 8 characters"@
                },
            },
    {
        if self.username.as_str().as_bytes().len() < 3 {
            Err("Username must be at least 3 characters")
        } else if self.password.as_str().as_bytes().len() < 8 {
            Err("Password must be at least 8 characters")
        } else {
            Ok(self)
        }
    }
}

/// Relies on bcrypt::hash with bcrypt::DEFAULT_COST: a salted hash drawn
/// from fresh randomness, so nothing relates the output's tail to the input
/// text or to another call; every success is the fixed 60-character hash
/// string of the crate's default version, so it starts `$2b$`. A failure's
/// message is passed through.
#[verifier::external_body]
fn hash_password(password: &str) -> (r: Result<String, String>)
    ensures
        r matches Ok(h) ==> h@.len() == 60 && h@.subrange(0, 4) == "$2b$"@,
{
    match bcrypt::hash(password, bcrypt::DEFAULT_COST) {
        Ok(h) => Ok(h),
        Err(e) => Err(e.to_string()),
    }
}

/// Validate a signup request and hash its password: on success the username
/// comes back unchanged beside the value to store, which is a 60-character
/// hash string, never the plaintext. An invalid request is rejected with its
/// exact validation message; a valid one fails only if the hasher does, with
/// the hasher's message.
pub fn prepare_signup(data: SignupData) -> (r: Result<(String, String), String>)
    ensures
        match r {
            Ok(p) => spec_signup_valid(data.username@, data.password@) && p.0@ == data.username@
                && p.1@.len() == 60 && p.1@.subrange(0, 4) == "$2b$"@,
            Err(m) => !spec_signup_valid(data.username@, data.password@) ==> if encode_utf8(
                data.username@,
            ).len() < 3 {
                m@ == "Username must be at least 3 characters"@
            } else {
                m@ == "Password must be at least 8 characters"@
            },
        },
        !spec_signup_valid(data.username@, data.password@) ==> r is Err,
{
    match data.validate() {
        Ok(d) => {
            match hash_password(d.password.as_str()) {
                Ok(h) => Ok((d.username, h)),
                Err(m) => Err(m),
            }
        },
        Err(m) => Err(m.to_owned()),
    }
}

/// Hash a password change: the value to store is a fresh 60-character hash
/// string, never the plaintext; a failure carries the hasher's message.
pub fn prepare_password_change(new_password: &str) -> (r: Result<String, String>)
    ensures
        r matches Ok(h) ==> h@.len() == 60 && h@.subrange(0, 4) == "$2b$"@,
{
    hash_password(new_password)
}

} // verus!
