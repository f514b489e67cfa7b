//! The SQL texts the store is driven with. Executing them is the external
//! collaborator's business; composing them is pure string work and is pinned
//! here, query by query.

use vstd::prelude::*;

verus! {

/// `SELECT * FROM {table} WHERE {column} = $1`.
pub fn select_by_column_query(table: &str, column: &str) -> (r: String)
    ensures
        r@ == "SELECT * FROM "@ + table@ + " WHERE "@ + column@ + " = $1"@,
{
    let mut s = String::new();
    s.append("SELECT * FROM ");
    s.append(table);
    s.append(" WHERE ");
    s.append(column);
    s.append(" = $1");
    proof {
        assert(s@ =~= "SELECT * FROM "@ + table@ + " WHERE "@ + column@ + " = $1"@);
    }
    s
}

/// `DELETE FROM {table} WHERE {column} = $1 RETURNING *`.
pub fn delete_by_column_query(table: &str, column: &str) -> (r: String)
    ensures
        r@ == "DELETE FROM "@ + table@ + " WHERE "@ + column@ + " = $1 RETURNING *"@,
{
    let mut s = String::new();
    s.append("DELETE FROM ");
    s.append(table);
    s.append(" WHERE ");
    s.append(column);
    s.append(" = $1 RETURNING *");
    proof {
        assert(s@ =~= "DELETE FROM "@ + table@ + " WHERE "@ + column@ + " = $1 RETURNING *"@);
    }
    s
}

pub fn account_insert_query() -> (r: String)
    ensures
        r@ == "INSERT INTO account (username, password_hash) VALUES ($1, $2) RETURNING *"@,
{
    "INSERT INTO account (username, password_hash) VALUES ($1, $2) RETURNING *".to_owned()
}

pub fn account_update_query() -> (r: String)
    ensures
        r@
            == "UPDATE account SET username = $1, password_hash = $2 WHERE id = $3 RETURNING *"@,
{
    "UPDATE account SET username = $1, password_hash = $2 WHERE id = $3 RETURNING *".to_owned()
}

pub fn account_find_by_id_query() -> (r: String)
    ensures
        r@ == "SELECT * FROM account WHERE id = $1"@,
{
    let s = select_by_column_query("account", "id");
    proof {
        reveal_strlit("SELECT * FROM ");
        reveal_strlit("account");
        reveal_strlit(" WHERE ");
        reveal_strlit("id");
        reveal_strlit(" = $1");
        reveal_strlit("SELECT * FROM account WHERE id = $1");
        assert(s@ =~= "SELECT * FROM account WHERE id = $1"@);
    }
    s
}

pub fn account_find_by_name_query() -> (r: String)
    ensures
        r@ == "SELECT * FROM account WHERE username = $1"@,
{
    let s = select_by_column_query("account", "username");
    proof {
        reveal_strlit("SELECT * FROM ");
        reveal_strlit("account");
        reveal_strlit(" WHERE ");
        reveal_strlit("username");
        reveal_strlit(" = $1");
        reveal_strlit("SELECT * FROM account WHERE username = $1");
        assert(s@ =~= "SELECT * FROM account WHERE username = $1"@);
    }
    s
}

pub fn account_delete_query() -> (r: String)
    ensures
        r@ == "DELETE FROM account WHERE id = $1 RETURNING *"@,
{
    let s = delete_by_column_query("account", "id");
    proof {
        reveal_strlit("DELETE FROM ");
        reveal_strlit("account");
        reveal_strlit(" WHERE ");
        reveal_strlit("id");
        reveal_strlit(" = $1 RETURNING *");
        reveal_strlit("DELETE FROM account WHERE id = $1 RETURNING *");
        assert(s@ =~= "DELETE FROM account WHERE id = $1 RETURNING *"@);
    }
    s
}

pub fn account_update_username_query() -> (r: String)
    ensures
        r@ == "UPDATE account SET username = $1 WHERE id = $2 RETURNING username"@,
{
    "UPDATE account SET username = $1 WHERE id = $2 RETURNING username".to_owned()
}

pub fn account_update_password_query() -> (r: String)
    ensures
        r@ == "UPDATE account SET password_hash = $1 WHERE id = $2"@,
{
    "UPDATE account SET password_hash = $1 WHERE id = $2".to_owned()
}

pub fn session_insert_query() -> (r: String)
    ensures
        r@ == "INSERT INTO web_sessions (account_id, cookie) VALUES ($1, $2) RETURNING id"@,
{
    "INSERT INTO web_sessions (account_id, cookie) VALUES ($1, $2) RETURNING id".to_owned()
}

pub fn session_delete_query() -> (r: String)
    ensures
        r@ == "DELETE FROM web_sessions WHERE id = $1"@,
{
    "DELETE FROM web_sessions WHERE id = $1".to_owned()
}

pub fn session_find_by_cookie_query() -> (r: String)
    ensures
        r@
            == "SELECT web_sessions.id, account.id, account.username FROM web_sessions INNER JOIN account ON account.id = web_sessions.account_id WHERE web_sessions.cookie = $1"@,
{
    "SELECT web_sessions.id, account.id, account.username FROM web_sessions INNER JOIN account ON account.id = web_sessions.account_id WHERE web_sessions.cookie = $1".to_owned()
}

pub fn account_find_credentials_query() -> (r: String)
    ensures
        r@ == "SELECT password_hash, id, username FROM account WHERE username = $1"@,
{
    "SELECT password_hash, id, username FROM account WHERE username = $1".to_owned()
}

pub fn account_list_query() -> (r: String)
    ensures
        r@ == "SELECT id, username FROM account ORDER BY id ASC LIMIT 5"@,
{
    "SELECT id, username FROM account ORDER BY id ASC LIMIT 5".to_owned()
}

pub fn table_insert_query() -> (r: String)
    ensures
        r@ == "INSERT INTO random_table (created_by, name) VALUES ($1, $2)"@,
{
    "INSERT INTO random_table (created_by, name) VALUES ($1, $2)".to_owned()
}

pub fn table_delete_query() -> (r: String)
    ensures
        r@ == "DELETE FROM random_table WHERE id = $1 AND created_by = $2 RETURNING *"@,
{
    "DELETE FROM random_table WHERE id = $1 AND created_by = $2 RETURNING *".to_owned()
}

pub fn element_insert_query() -> (r: String)
    ensures
        r@ == "INSERT INTO random_table_element (table_id, index, text) VALUES ($1, $2, $3)"@,
{
    "INSERT INTO random_table_element (table_id, index, text) VALUES ($1, $2, $3)".to_owned()
}

} // verus!
