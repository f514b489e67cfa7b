//! The data model of the backend: accounts, random tables and the database
//! configuration. The store itself is an external collaborator; here live the
//! values it exchanges and the pure decisions made over them.

use vstd::prelude::*;

use crate::text::str_equal;

verus! {

/// A named table of ordered text elements, owned by an account.
#[derive(Clone, Debug)]
pub struct Table {
    pub id: i32,
    pub created_by: i32,
    pub name: String,
    pub elements: Option<Vec<String>>,
}

/// A user account as the store returns it.
#[derive(Clone, Debug)]
pub struct Account {
    pub id: i32,
    pub username: String,
}

impl Account {
    /// Credentials match when the password equals the stored hash literally:
    /// the store keeps whatever text it was handed at signup.
    pub fn test_password(password: &str, password_hash: &str) -> (r: bool)
        ensures
            r == (password@ == password_hash@),
    {
        str_equal(password, password_hash)
    }

    /// The account from a credentials row: returned exactly when the row's
    /// stored hash equals the password.
    pub fn check_credentials(row: Option<(String, Account)>, password: &str) -> (r: Option<
        Account,
    >)
        ensures
            match r {
                Some(a) => (match row {
                    Some(p) => p.0@ == password@ && a.id == p.1.id && a.username@ == p.1.username@,
                    None => false,
                }),
                None => (match row {
                    Some(p) => p.0@ != password@,
                    None => true,
                }),
            },
    {
        match row {
            Some(p) => {
                if Account::test_password(password, p.0.as_str()) {
                    Some(p.1)
                } else {
                    None
                }
            },
            None => None,
        }
    }
}

/// Where and as whom to connect to the store.
pub struct DatabaseConfig {
    host: String,
    dbname: String,
    user: String,
    password: String,
}

impl View for DatabaseConfig {
    type V = (Seq<char>, Seq<char>, Seq<char>, Seq<char>);

    closed spec fn view(&self) -> (Seq<char>, Seq<char>, Seq<char>, Seq<char>) {
        (self.host@, self.dbname@, self.user@, self.password@)
    }
}

impl DatabaseConfig {
    pub fn new(host: String, dbname: String, user: String, password: String) -> (r: DatabaseConfig)
        ensures
            r@ == (host@, dbname@, user@, password@),
    {
        DatabaseConfig { host, dbname, user, password }
    }

    /// The keyword/value connection string the store's client expects.
    pub fn connect_string(&self) -> (r: String)
        ensures
            r@ == "host="@ + self@.0 + " dbname="@ + self@.1 + " user="@ + self@.2 + " password="@
                + self@.3,
    {
        let mut s = String::new();
        s.append("host=");
        s.append(self.host.as_str());
        s.append(" dbname=");
        s.append(self.dbname.as_str());
        s.append(" user=");
        s.append(self.user.as_str());
        s.append(" password=");
        s.append(self.password.as_str());
        proof {
            assert(s@ =~= "host="@ + self@.0 + " dbname="@ + self@.1 + " user="@ + self@.2
                + " password="@ + self@.3);
        }
        s
    }
}

} // verus!
