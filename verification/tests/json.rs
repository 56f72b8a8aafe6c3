use tootmirror::json::{string_member, Member};

#[test]
fn string_member_is_found() {
    assert_eq!(
        string_member("{\"id\": \"109\", \"type\": \"image\"}", "id"),
        Member::Found("109".to_string())
    );
    assert_eq!(string_member("{\"id\": \"\"}", "id"), Member::Found(String::new()));
}

#[test]
fn string_member_decodes_escapes() {
    assert_eq!(string_member("{\"id\": \"a\\u00e9\\n\"}", "id"), Member::Found("aé\n".to_string()));
}

#[test]
fn member_of_another_kind_is_missing() {
    assert_eq!(string_member("{\"id\": 109}", "id"), Member::Missing);
    assert_eq!(string_member("{\"id\": null}", "id"), Member::Missing);
    assert_eq!(string_member("{\"id\": [\"109\"]}", "id"), Member::Missing);
}

#[test]
fn absent_member_is_missing() {
    assert_eq!(string_member("{\"ID\": \"109\"}", "id"), Member::Missing);
    assert_eq!(string_member("{}", "id"), Member::Missing);
}

#[test]
fn member_of_what_is_no_object_is_missing() {
    assert_eq!(string_member("[\"id\"]", "id"), Member::Missing);
    assert_eq!(string_member("\"id\"", "id"), Member::Missing);
    assert_eq!(string_member("null", "id"), Member::Missing);
}

#[test]
fn text_that_is_no_json_is_malformed() {
    assert_eq!(string_member("", "id"), Member::Malformed);
    assert_eq!(string_member("<html>", "id"), Member::Malformed);
    assert_eq!(string_member("{\"id\": \"109\"", "id"), Member::Malformed);
    assert_eq!(string_member("{\"id\": \"109\"} trailing", "id"), Member::Malformed);
}
