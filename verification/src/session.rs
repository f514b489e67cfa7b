//! The login-session state and its transitions. Storing and deleting session
//! rows is the external store's business; the state a session carries and the
//! key material it is keyed by are decided here.

use vstd::prelude::*;

use rand::distributions::Alphanumeric;
use rand::thread_rng;
use rand::Rng;

use crate::data::Account;

verus! {

/// A character the session key is drawn from.
pub open spec fn is_key_char(c: char) -> bool {
    ('0' <= c && c <= '9') || ('a' <= c && c <= 'z') || ('A' <= c && c <= 'Z')
}

/// Relies on rand::thread_rng and rand::distributions::Alphanumeric: each
/// drawn byte is one of a-z, A-Z, 0-9, so the key has exactly `len`
/// alphanumeric characters. The draw is random: nothing relates two calls.
#[verifier::external_body]
fn random_key(len: usize) -> (r: String)
    ensures
        r@.len() == len as nat,
        forall|i: int| 0 <= i < r@.len() ==> is_key_char(#[trigger] r@[i]),
{
    thread_rng().sample_iter(&Alphanumeric).take(len).map(char::from).collect()
}

/// A fresh 48-character session key.
pub fn generate_session_key() -> (r: String)
    ensures
        r@.len() == 48,
        forall|i: int| 0 <= i < r@.len() ==> is_key_char(#[trigger] r@[i]),
{
    random_key(48)
}

/// What a session knows: the stored session row's id and the account, both
/// present exactly when someone is logged in.
pub struct SessionState {
    pub id: Option<i32>,
    pub account: Option<Account>,
}

impl SessionState {
    /// The state read back from a session-row lookup: an anonymous session
    /// when the key matched no row.
    pub fn from_query(row: Option<(i32, Account)>) -> (r: SessionState)
        ensures
            match row {
                Some(p) => r.id == Some(p.0) && (r.account matches Some(a) && a.id == p.1.id
                    && a.username@ == p.1.username@),
                None => r.id is None && r.account is None,
            },
    {
        match row {
            Some(p) => SessionState { id: Some(p.0), account: Some(p.1) },
            None => SessionState { id: None, account: None },
        }
    }

    /// Record a successful authentication.
    pub fn apply_login(&mut self, account: Account, session_id: i32)
        ensures
            final(self).id == Some(session_id),
            (final(self).account matches Some(a) && a.id == account.id && a.username@
                == account.username@),
    {
        self.account = Some(account);
        self.id = Some(session_id);
    }

    /// Forget the session: the stored row's deletion is the caller's side.
    pub fn clear(&mut self)
        ensures
            final(self).id is None,
            final(self).account is None,
    {
        self.id = None;
        self.account = None;
    }

    /// Someone is logged in exactly when both the row id and the account are
    /// known.
    pub fn logged_in(&self) -> (r: bool)
        ensures
            r == (self.id is Some && self.account is Some),
    {
        if self.account.is_some() && self.id.is_some() {
            return true;
        }
        false
    }
}

} // verus!
