use rum::naming::{default_foreign_key, derive_names, foreign_key_for, snake_case, value_fields};

#[test]
fn snake_case_lowers_and_separates() {
    assert_eq!(snake_case("User"), "user");
    assert_eq!(snake_case("ChatMessage"), "chat_message");
    assert_eq!(snake_case("chatMessage"), "chat_message");
    assert_eq!(snake_case("HTTPServer"), "h_t_t_p_server");
    assert_eq!(snake_case("already_snake"), "already_snake");
    assert_eq!(snake_case(""), "");
    assert_eq!(snake_case("Ünï"), "Ünï");
}

#[test]
fn foreign_keys_end_with_id() {
    assert_eq!(foreign_key_for("user"), "user_id");
    assert_eq!(foreign_key_for(""), "_id");
    assert_eq!(default_foreign_key("users"), "user_id");
    assert_eq!(default_foreign_key("orders"), "order_id");
    assert_eq!(default_foreign_key("people"), "person_id");
}

#[test]
fn names_are_derived_from_the_name_of_the_type() {
    let names = derive_names("ChatMessage");
    assert_eq!(names.singular, "chat_message");
    assert_eq!(names.table_name, "chat_messages");
    assert_eq!(names.foreign_key, "chat_message_id");
    let names = derive_names("User");
    assert_eq!(names.table_name, "users");
    assert_eq!(names.foreign_key, "user_id");
}

#[test]
fn the_primary_key_is_no_value_field() {
    let fields = vec![
        "id".to_string(),
        "email".to_string(),
        "id".to_string(),
        "password".to_string(),
    ];
    assert_eq!(value_fields(&fields), vec!["email", "password"]);
    assert_eq!(value_fields(&vec![]), Vec::<String>::new());
    assert_eq!(value_fields(&vec!["id".to_string()]), Vec::<String>::new());
}
