use user_crud::{ServiceError, User, UserTable};

fn request(name: &str, email: &str) -> User {
    User { id: None, name: name.to_string(), email: email.to_string() }
}

#[test]
fn create_returns_record_with_id() {
    let mut table = UserTable::new();
    let created = table.add_user(request("Alice", "a@x.com"));
    assert_eq!(created.id, Some(1));
    assert_eq!(created.name, "Alice");
    assert_eq!(created.email, "a@x.com");
}

#[test]
fn create_ignores_id_on_request() {
    let mut table = UserTable::new();
    let created = table.add_user(User {
        id: Some(77),
        name: "Alice".to_string(),
        email: "a@x.com".to_string(),
    });
    assert_eq!(created.id, Some(1));
}

#[test]
fn create_assigns_increasing_ids() {
    let mut table = UserTable::new();
    let first = table.add_user(request("Alice", "a@x.com"));
    let second = table.add_user(request("Bob", "b@x.com"));
    assert_eq!(first.id, Some(1));
    assert_eq!(second.id, Some(2));
}

#[test]
fn list_of_empty_table_is_empty() {
    let table = UserTable::new();
    assert!(table.get_users().is_empty());
}

#[test]
fn list_returns_one_record_per_creation() {
    let mut table = UserTable::new();
    let mut created = Vec::new();
    created.push(table.add_user(request("Alice", "a@x.com")));
    created.push(table.add_user(request("Bob", "b@x.com")));
    created.push(table.add_user(request("Carol", "c@x.com")));
    let listed = table.get_users();
    assert_eq!(listed.len(), 3);
    assert_eq!(listed, created);
}

#[test]
fn update_reflects_new_email_and_keeps_name() {
    let mut table = UserTable::new();
    let created = table.add_user(request("Alice", "a@x.com"));
    let id = created.id.unwrap();
    let updated = table.update_user(id, request("Alice", "new@x.com")).unwrap();
    assert_eq!(updated.id, Some(id));
    assert_eq!(updated.name, "Alice");
    assert_eq!(updated.email, "new@x.com");
    let listed = table.get_users();
    assert_eq!(listed.len(), 1);
    assert_eq!(listed[0], updated);
}

#[test]
fn update_leaves_other_rows_alone() {
    let mut table = UserTable::new();
    let alice = table.add_user(request("Alice", "a@x.com"));
    let bob = table.add_user(request("Bob", "b@x.com"));
    table.update_user(bob.id.unwrap(), request("Robert", "r@x.com")).unwrap();
    let listed = table.get_users();
    assert_eq!(listed[0], alice);
    assert_eq!(listed[1].name, "Robert");
}

#[test]
fn update_of_missing_id_is_not_found() {
    let mut table = UserTable::new();
    assert_eq!(table.update_user(42, request("Nobody", "n@x.com")), Err(ServiceError::NotFound));
    let alice = table.add_user(request("Alice", "a@x.com"));
    assert_eq!(table.update_user(99, request("Nobody", "n@x.com")), Err(ServiceError::NotFound));
    assert_eq!(table.get_users(), vec![alice]);
}

#[test]
fn delete_removes_record_from_list() {
    let mut table = UserTable::new();
    let alice = table.add_user(request("Alice", "a@x.com"));
    let bob = table.add_user(request("Bob", "b@x.com"));
    let status = table.delete_user(alice.id.unwrap());
    assert_eq!(status, 204);
    assert_eq!(table.get_users(), vec![bob]);
}

#[test]
fn delete_of_missing_id_still_succeeds() {
    let mut table = UserTable::new();
    assert_eq!(table.delete_user(99), 204);
    assert!(table.get_users().is_empty());
    let alice = table.add_user(request("Alice", "a@x.com"));
    let id = alice.id.unwrap();
    assert_eq!(table.delete_user(id), 204);
    assert_eq!(table.delete_user(id), 204);
    assert!(table.get_users().is_empty());
}

#[test]
fn create_then_list_round_trip() {
    let pairs = [("Alice", "a@x.com"), ("Bob", "b@x.com"), ("Eve", ""), ("", "e@x.com")];
    let mut table = UserTable::new();
    for (name, email) in pairs {
        let created = table.add_user(request(name, email));
        let listed = table.get_users();
        assert_eq!(listed.last(), Some(&created));
    }
}

#[test]
fn ids_are_not_reused_after_delete() {
    let mut table = UserTable::new();
    let alice = table.add_user(request("Alice", "a@x.com"));
    table.delete_user(alice.id.unwrap());
    let bob = table.add_user(request("Bob", "b@x.com"));
    assert_eq!(bob.id, Some(2));
}
