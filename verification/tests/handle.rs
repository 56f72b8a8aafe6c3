use tootmirror::handle::{local_domain, normalize_handle};

#[test]
fn normalize_appends_domain_to_local_handle() {
    assert_eq!(normalize_handle("user", "example.social"), "user@example.social");
}

#[test]
fn normalize_keeps_handle_with_domain() {
    assert_eq!(normalize_handle("user@other.example", "example.social"), "user@other.example");
}

#[test]
fn normalize_is_idempotent() {
    for acct in ["user", "user@example.social", "", "@", "a@b@c"] {
        let once = normalize_handle(acct, "example.social");
        let twice = normalize_handle(&once, "example.social");
        assert_eq!(once, twice);
    }
}

#[test]
fn normalize_of_empty_handle_is_at_domain() {
    assert_eq!(normalize_handle("", "example.social"), "@example.social");
}

#[test]
fn local_domain_strips_scheme_and_trailing_slashes() {
    assert_eq!(local_domain("https://example.social/"), "example.social");
    assert_eq!(local_domain("http://example.social"), "example.social");
    assert_eq!(local_domain("https://example.social///"), "example.social");
    assert_eq!(local_domain("example.social"), "example.social");
}

#[test]
fn local_domain_keeps_path_and_inner_slashes() {
    assert_eq!(local_domain("https://example.social/masto/"), "example.social/masto");
}

#[test]
fn local_domain_removes_scheme_wherever_it_stands() {
    assert_eq!(local_domain("https://a.example/?next=http://b.example"), "a.example/?next=b.example");
}
