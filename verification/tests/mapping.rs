use user_crud::user::{clone_user, user_from_row, users_from_rows};
use user_crud::{ServiceError, User};
use user_crud::sql::{
    create_table_statement, delete_user_statement, insert_user_statement,
    select_users_statement, update_user_statement,
};

#[test]
fn user_from_row_maps_the_three_columns() {
    let user = user_from_row(5, "Alice".to_string(), "a@x.com".to_string());
    assert_eq!(user.id, Some(5));
    assert_eq!(user.name, "Alice");
    assert_eq!(user.email, "a@x.com");
}

#[test]
fn users_from_rows_maps_every_row_in_order() {
    let rows = vec![
        (1, "Alice".to_string(), "a@x.com".to_string()),
        (2, "Bob".to_string(), "b@x.com".to_string()),
    ];
    let users = users_from_rows(rows);
    assert_eq!(users.len(), 2);
    assert_eq!(users[0], User { id: Some(1), name: "Alice".to_string(), email: "a@x.com".to_string() });
    assert_eq!(users[1], User { id: Some(2), name: "Bob".to_string(), email: "b@x.com".to_string() });
}

#[test]
fn users_from_rows_of_nothing_is_empty() {
    assert!(users_from_rows(Vec::new()).is_empty());
}

#[test]
fn clone_user_keeps_every_field() {
    let user = User { id: None, name: "Alice".to_string(), email: "a@x.com".to_string() };
    assert_eq!(clone_user(&user), user);
}

#[test]
fn not_found_answers_404_with_a_fixed_phrase() {
    let error = ServiceError::NotFound;
    assert_eq!(error.status_code(), 404);
    assert_eq!(error.message(), "user not found");
}

#[test]
fn storage_failure_answers_500_with_the_driver_message() {
    let error = ServiceError::Storage("connection reset".to_string());
    assert_eq!(error.status_code(), 500);
    assert_eq!(error.message(), "connection reset");
}

#[test]
fn statements_name_the_users_table_and_its_columns() {
    assert_eq!(
        create_table_statement(),
        "CREATE TABLE IF NOT EXISTS users (id SERIAL PRIMARY KEY, name VARCHAR NOT NULL, email VARCHAR NOT NULL)"
    );
    assert_eq!(
        insert_user_statement(),
        "INSERT INTO users (name, email) VALUES ($1, $2) RETURNING id, name, email"
    );
    assert_eq!(select_users_statement(), "SELECT id, name, email FROM users");
    assert_eq!(
        update_user_statement(),
        "UPDATE users SET name = $1, email = $2 WHERE id = $3 RETURNING id, name, email"
    );
    assert_eq!(delete_user_statement(), "DELETE FROM users WHERE id = $1");
}
