use tootmirror::followers::{
    compose_alert_body, next_link, reconcile, removed_followers, Account, FollowerScan,
    ALERT_SUBJECT,
};
use tootmirror::snapshot::Snapshot;

fn account(id: &str, acct: &str) -> Account {
    Account { id: id.to_string(), username: acct.split('@').next().unwrap().to_string(), acct: acct.to_string() }
}

fn snapshot(pairs: &[(&str, &str)]) -> Snapshot {
    let mut out = Snapshot::new();
    for (id, handle) in pairs {
        out.insert(id.to_string(), handle.to_string());
    }
    out
}

fn pairs(snapshot: &Snapshot) -> Vec<(String, String)> {
    let mut out = Vec::new();
    let mut i = 0;
    while let Some(entry) = snapshot.get(i) {
        out.push((entry.id.clone(), entry.handle.clone()));
        i += 1;
    }
    out
}

fn owned(pairs: &[(&str, &str)]) -> Vec<(String, String)> {
    pairs.iter().map(|(a, b)| (a.to_string(), b.to_string())).collect()
}

#[test]
fn next_link_reads_the_next_relation() {
    let header = "<https://a.example/api/v1/accounts/1/followers?max_id=7>; rel=\"next\", \
                  <https://a.example/api/v1/accounts/1/followers?since_id=9>; rel=\"prev\"";
    assert_eq!(
        next_link(header),
        Ok(Some("https://a.example/api/v1/accounts/1/followers?max_id=7".to_string()))
    );
}

#[test]
fn next_link_skips_other_relations() {
    let header = "<https://a.example/p?since_id=9>; rel=\"prev\", <https://a.example/p?max_id=7>;rel=\"next\"";
    assert_eq!(next_link(header), Ok(Some("https://a.example/p?max_id=7".to_string())));
}

#[test]
fn next_link_is_absent_without_next_relation() {
    assert_eq!(next_link("<https://a.example/p?since_id=9>; rel=\"prev\""), Ok(None));
    assert_eq!(next_link(""), Ok(None));
    assert_eq!(next_link("<>; rel=\"next\""), Ok(None));
    assert_eq!(next_link("<https://a.example/p>; rel=next"), Ok(None));
}

#[test]
fn scan_begins_at_the_followers_of_the_owner() {
    let scan = FollowerScan::begin("https://example.social", "42").unwrap();
    assert_eq!(
        scan.next_url(),
        Some(&"https://example.social/api/v1/accounts/42/followers".to_string())
    );
    assert!(scan.finish().is_none());
}

#[test]
fn scan_follows_next_relations_until_none_is_left() {
    let scan = FollowerScan::begin("https://example.social/", "42").unwrap();
    let scan = scan.absorb(
        &vec![account("1", "alice"), account("2", "bob@other.example")],
        Some("<https://example.social/page2>; rel=\"next\""),
    );
    assert_eq!(scan.next_url(), Some(&"https://example.social/page2".to_string()));
    let scan = scan.absorb(&vec![account("3", "carol")], Some("<https://example.social/p0>; rel=\"prev\""));
    assert_eq!(scan.next_url(), None);
    let found = scan.finish().unwrap();
    assert_eq!(
        pairs(&found),
        owned(&[
            ("1", "alice@example.social"),
            ("2", "bob@other.example"),
            ("3", "carol@example.social"),
        ])
    );
}

#[test]
fn scan_ends_on_a_page_without_link_header() {
    let scan = FollowerScan::begin("https://example.social", "42").unwrap();
    let scan = scan.absorb(&vec![account("1", "alice")], None);
    assert_eq!(scan.next_url(), None);
    assert_eq!(pairs(&scan.finish().unwrap()), owned(&[("1", "alice@example.social")]));
}

#[test]
fn scan_of_no_followers_yields_empty_snapshot() {
    let scan = FollowerScan::begin("https://example.social", "42").unwrap();
    let scan = scan.absorb(&Vec::new(), None);
    assert_eq!(scan.finish().unwrap().len(), 0);
}

#[test]
fn later_page_overwrites_handle_of_repeated_id() {
    let scan = FollowerScan::begin("https://example.social", "42").unwrap();
    let scan = scan.absorb(
        &vec![account("1", "alice"), account("2", "bob")],
        Some("<https://example.social/page2>; rel=\"next\""),
    );
    let scan = scan.absorb(&vec![account("1", "alice@moved.example"), account("3", "carol")], None);
    let found = scan.finish().unwrap();
    assert_eq!(found.len(), 3);
    assert_eq!(
        pairs(&found),
        owned(&[
            ("1", "alice@moved.example"),
            ("2", "bob@example.social"),
            ("3", "carol@example.social"),
        ])
    );
}

#[test]
fn scan_goes_on_through_an_empty_page_that_names_a_next_one() {
    let scan = FollowerScan::begin("https://example.social", "42").unwrap();
    let scan = scan.absorb(&Vec::new(), Some("<https://example.social/same>; rel=\"next\""));
    assert_eq!(scan.next_url(), Some(&"https://example.social/same".to_string()));
    let scan = scan.absorb(&Vec::new(), Some("<https://example.social/same>; rel=\"next\""));
    assert_eq!(scan.next_url(), Some(&"https://example.social/same".to_string()));
    assert!(scan.finish().is_none());
}

#[test]
fn absorb_page_takes_the_next_address_as_given() {
    let scan = FollowerScan::begin("https://example.social", "42").unwrap();
    let scan = scan.absorb_page(&vec![account("1", "alice")], Some("anything".to_string()));
    assert_eq!(scan.next_url(), Some(&"anything".to_string()));
    let scan = scan.absorb_page(&vec![account("2", "bob")], None);
    assert_eq!(pairs(&scan.finish().unwrap()), owned(&[("1", "alice@example.social"), ("2", "bob@example.social")]));
}

#[test]
fn removal_of_one_follower_is_reported() {
    let previous = snapshot(&[("A", "a@x"), ("B", "b@x")]);
    let current = snapshot(&[("A", "a@x")]);
    assert_eq!(removed_followers(&previous, &current), vec!["b@x".to_string()]);
    let out = reconcile(&previous, current);
    assert_eq!(out.removed, vec!["b@x".to_string()]);
    assert_eq!(pairs(&out.snapshot), owned(&[("A", "a@x")]));
}

#[test]
fn empty_fetch_reports_everyone_and_is_stored() {
    let previous = snapshot(&[("A", "a@x"), ("B", "b@x")]);
    let out = reconcile(&previous, Snapshot::new());
    assert_eq!(out.removed, vec!["a@x".to_string(), "b@x".to_string()]);
    assert_eq!(out.snapshot.len(), 0);
    assert!(out.alert.is_some());
}

#[test]
fn no_removal_means_no_alert_and_new_snapshot_is_stored() {
    let previous = snapshot(&[("A", "a@x")]);
    let current = snapshot(&[("B", "b@x"), ("A", "a@x")]);
    let out = reconcile(&previous, current);
    assert!(out.removed.is_empty());
    assert_eq!(out.alert, None);
    assert_eq!(pairs(&out.snapshot), owned(&[("B", "b@x"), ("A", "a@x")]));
}

#[test]
fn first_run_reports_nothing() {
    let out = reconcile(&Snapshot::new(), snapshot(&[("A", "a@x")]));
    assert!(out.removed.is_empty());
    assert_eq!(out.alert, None);
    assert_eq!(out.snapshot.len(), 1);
}

#[test]
fn removed_handle_is_the_stored_one() {
    let previous = snapshot(&[("A", "old@x"), ("B", "b@x")]);
    let current = snapshot(&[("B", "renamed@x")]);
    assert_eq!(removed_followers(&previous, &current), vec!["old@x".to_string()]);
}

#[test]
fn removal_goes_by_id_not_by_handle() {
    let previous = snapshot(&[("A", "a@x")]);
    let current = snapshot(&[("Z", "a@x")]);
    assert_eq!(removed_followers(&previous, &current), vec!["a@x".to_string()]);
}

#[test]
fn alert_names_each_removed_handle_on_a_line() {
    let previous = snapshot(&[("A", "a@x"), ("B", "b@x"), ("C", "c@y")]);
    let current = snapshot(&[("B", "b@x")]);
    let alert = reconcile(&previous, current).alert.unwrap();
    assert_eq!(alert.subject, "Mastodon Unfollower Alert");
    assert_eq!(alert.subject, ALERT_SUBJECT);
    assert_eq!(alert.body, "The following accounts have unfollowed you:\n\n@a@x\n@c@y\n");
}

#[test]
fn alert_body_of_no_handle_is_the_heading() {
    assert_eq!(compose_alert_body(&Vec::new()), "The following accounts have unfollowed you:\n\n");
}
