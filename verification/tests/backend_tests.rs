use random_tables_web::data::{Account, DatabaseConfig, Table};
use random_tables_web::queries;
use random_tables_web::session::{generate_session_key, SessionState};
use random_tables_web::signup::{prepare_signup, SignupData};

#[test]
fn test_password_compares_literally() {
    assert!(Account::test_password("secret", "secret"));
    assert!(!Account::test_password("secret", "Secret"));
    assert!(!Account::test_password("secret", ""));
}

#[test]
fn check_credentials_returns_account_only_on_match() {
    let account = Account { id: 3, username: "alice".to_string() };
    let row = Some(("pw".to_string(), account));
    let found = Account::check_credentials(row, "pw").unwrap();
    assert_eq!(3, found.id);
    assert_eq!("alice", found.username);

    let account = Account { id: 3, username: "alice".to_string() };
    assert!(Account::check_credentials(Some(("pw".to_string(), account)), "other").is_none());
    assert!(Account::check_credentials(None, "pw").is_none());
}

#[test]
fn connect_string_lists_all_parts() {
    let config = DatabaseConfig::new(
        "localhost".to_string(),
        "tables".to_string(),
        "app".to_string(),
        "pw".to_string(),
    );
    assert_eq!("host=localhost dbname=tables user=app password=pw", config.connect_string());
}

#[test]
fn query_texts_are_exact() {
    assert_eq!(
        "INSERT INTO account (username, password_hash) VALUES ($1, $2) RETURNING *",
        queries::account_insert_query()
    );
    assert_eq!("SELECT * FROM account WHERE id = $1", queries::account_find_by_id_query());
    assert_eq!("SELECT * FROM account WHERE username = $1", queries::account_find_by_name_query());
    assert_eq!("DELETE FROM account WHERE id = $1 RETURNING *", queries::account_delete_query());
    assert_eq!(
        "UPDATE account SET username = $1, password_hash = $2 WHERE id = $3 RETURNING *",
        queries::account_update_query()
    );
    assert_eq!(
        "INSERT INTO random_table (created_by, name) VALUES ($1, $2)",
        queries::table_insert_query()
    );
    assert_eq!(
        "DELETE FROM random_table WHERE id = $1 AND created_by = $2 RETURNING *",
        queries::table_delete_query()
    );
    assert_eq!(
        "INSERT INTO random_table_element (table_id, index, text) VALUES ($1, $2, $3)",
        queries::element_insert_query()
    );
    assert_eq!(
        "SELECT * FROM random_table WHERE created_by = $1",
        queries::select_by_column_query("random_table", "created_by")
    );
    assert_eq!(
        "DELETE FROM random_table_element WHERE table_id = $1 RETURNING *",
        queries::delete_by_column_query("random_table_element", "table_id")
    );
}

#[test]
fn session_state_transitions() {
    let account = Account { id: 1, username: "alice".to_string() };
    let mut session = SessionState::from_query(Some((9, account)));
    assert!(session.logged_in());
    assert_eq!(Some(9), session.id);

    session.clear();
    assert!(!session.logged_in());
    assert!(session.id.is_none());
    assert!(session.account.is_none());

    let account = Account { id: 2, username: "bob".to_string() };
    session.apply_login(account, 12);
    assert!(session.logged_in());
    assert_eq!(Some(12), session.id);
    assert_eq!("bob", session.account.as_ref().unwrap().username);

    let anonymous = SessionState::from_query(None);
    assert!(!anonymous.logged_in());
}

#[test]
fn session_keys_are_48_alphanumeric_characters() {
    let key = generate_session_key();
    assert_eq!(48, key.chars().count());
    assert!(key.chars().all(|c| c.is_ascii_alphanumeric()));
}

#[test]
fn signup_validation_messages_are_exact() {
    let short_name = SignupData { username: "ab".to_string(), password: "longenough".to_string() };
    assert_eq!(Err("Username must be at least 3 characters"), short_name.validate().map(|_| ()));

    let short_pass = SignupData { username: "alice".to_string(), password: "short".to_string() };
    assert_eq!(Err("Password must be at least 8 characters"), short_pass.validate().map(|_| ()));

    let valid = SignupData { username: "alice".to_string(), password: "longenough".to_string() };
    let accepted = valid.validate().unwrap();
    assert_eq!("alice", accepted.username);
    assert_eq!("longenough", accepted.password);
}

#[test]
fn prepare_signup_hashes_rather_than_stores_the_password() {
    let data = SignupData { username: "alice".to_string(), password: "longenough".to_string() };
    let (username, hash) = prepare_signup(data).unwrap();
    assert_eq!("alice", username);
    assert_ne!("longenough", hash);
    assert!(hash.starts_with("$2"));
}

#[test]
fn prepare_signup_rejects_invalid_requests() {
    let data = SignupData { username: "ab".to_string(), password: "longenough".to_string() };
    assert_eq!(Err("Username must be at least 3 characters".to_string()), prepare_signup(data));
}

#[test]
fn table_holds_its_elements() {
    let table = Table {
        id: 4,
        created_by: 2,
        name: "Weather".to_string(),
        elements: Some(vec!["Rain".to_string(), "Sun".to_string()]),
    };
    assert_eq!(2, table.elements.as_ref().unwrap().len());
    let copy = table.clone();
    assert_eq!("Weather", copy.name);
}
