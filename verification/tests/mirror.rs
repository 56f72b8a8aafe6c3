use tootmirror::mirror::{
    assess, collect_media_ids, grade_publish, initial_watermark, judge, read_owner_id, Action, Event,
    Mirror, Outcome, Stage, Status, Verdict, COOLDOWN_SECONDS, CYCLE_DELAY_SECONDS,
    POST_DELAY_SECONDS, PUBLISH_VISIBILITY, RATE_LIMITED,
};
use tootmirror::upload::{Media, Reply, UploadPlan};

fn post(id: &str, content: &str) -> Status {
    Status {
        id: id.to_string(),
        content: content.to_string(),
        visibility: "public".to_string(),
        in_reply_to_id: None,
        media_attachments: Vec::new(),
        reblog: false,
    }
}

fn reply_to(id: &str, content: &str, target: &str) -> Status {
    Status { in_reply_to_id: Some(target.to_string()), ..post(id, content) }
}

fn reblog(id: &str) -> Status {
    Status { reblog: true, ..post(id, "") }
}

fn with_media(id: &str, content: &str, urls: &[&str]) -> Status {
    Status {
        media_attachments: urls
            .iter()
            .map(|url| Media { url: url.to_string(), description: Some(format!("alt of {}", url)) })
            .collect(),
        ..post(id, content)
    }
}

fn publish(text: &str, media_ids: &[&str]) -> Action {
    Action::Publish {
        text: text.to_string(),
        visibility: "private".to_string(),
        media_ids: media_ids.iter().map(|id| id.to_string()).collect(),
    }
}

fn fetch(since_id: &str) -> Action {
    Action::Fetch { since_id: since_id.to_string() }
}

fn sleep(seconds: u64) -> Action {
    Action::Sleep { seconds }
}

fn started(watermark: &str) -> Mirror {
    Mirror::start(watermark.to_string()).unwrap()
}

#[test]
fn delays_and_visibility_are_the_fixed_ones() {
    assert_eq!(POST_DELAY_SECONDS, 10);
    assert_eq!(COOLDOWN_SECONDS, 300);
    assert_eq!(CYCLE_DELAY_SECONDS, 120);
    assert_eq!(RATE_LIMITED, 429);
    assert_eq!(PUBLISH_VISIBILITY, "private");
}

#[test]
fn mirror_starts_by_fetching_what_is_newer_than_the_watermark() {
    let mirror = started("100");
    assert_eq!(mirror.stage(), Stage::Polling);
    assert_eq!(mirror.watermark(), "100");
    assert_eq!(mirror.action(), fetch("100"));
}

#[test]
fn failed_fetch_is_a_cycle_without_posts() {
    let mirror = started("100").handle(Event::Fetched(None));
    assert_eq!(mirror.stage(), Stage::Resting);
    assert_eq!(mirror.action(), sleep(120));
    assert_eq!(mirror.watermark(), "100");
    let mirror = mirror.handle(Event::Slept);
    assert_eq!(mirror.action(), fetch("100"));
}

#[test]
fn empty_batch_is_a_cycle_without_posts() {
    let mirror = started("100").handle(Event::Fetched(Some(Vec::new())));
    assert_eq!(mirror.action(), sleep(120));
    assert_eq!(mirror.watermark(), "100");
}

#[test]
fn posts_are_published_oldest_first() {
    let batch = vec![post("103", "<p>third</p>"), post("102", "<p>second</p>"), post("101", "<p>first</p>")];
    let mirror = started("100").handle(Event::Fetched(Some(batch)));
    assert_eq!(mirror.action(), publish("first", &[]));
    assert_eq!(mirror.watermark(), "100");
    let mirror = mirror.handle(Event::Published(Some(200)));
    assert_eq!(mirror.watermark(), "101");
    assert_eq!(mirror.action(), sleep(10));
    let mirror = mirror.handle(Event::Slept);
    assert_eq!(mirror.action(), publish("second", &[]));
    let mirror = mirror.handle(Event::Published(Some(200))).handle(Event::Slept);
    assert_eq!(mirror.watermark(), "102");
    assert_eq!(mirror.action(), publish("third", &[]));
    let mirror = mirror.handle(Event::Published(Some(201)));
    assert_eq!(mirror.watermark(), "103");
    assert_eq!(mirror.action(), sleep(10));
    let mirror = mirror.handle(Event::Slept);
    assert_eq!(mirror.action(), sleep(120));
    let mirror = mirror.handle(Event::Slept);
    assert_eq!(mirror.action(), fetch("103"));
}

#[test]
fn reply_is_never_published_whatever_it_says() {
    let batch = vec![reply_to("101", "<p>An ordinary looking post</p>", "55")];
    let mirror = started("100").handle(Event::Fetched(Some(batch)));
    assert_eq!(mirror.watermark(), "101");
    assert_eq!(mirror.stage(), Stage::Resting);
    assert_eq!(mirror.action(), sleep(120));
    assert_eq!(assess(&reply_to("101", "<p>An ordinary looking post</p>", "55")), Ok(Verdict::Skip));
}

#[test]
fn mention_is_never_published() {
    assert_eq!(assess(&post("101", "<p>@bob thanks</p>")), Ok(Verdict::Skip));
    assert_eq!(judge(&post("101", "ignored"), "@bob thanks".to_string()), Verdict::Skip);
    let mirror = started("100").handle(Event::Fetched(Some(vec![post("101", "<p>@bob thanks</p>")])));
    assert_eq!(mirror.watermark(), "101");
    assert_eq!(mirror.action(), sleep(120));
}

#[test]
fn mention_is_told_by_the_cleaned_text() {
    assert_eq!(
        assess(&post("101", "<p><span class=\"h-card\"><a href=\"https://x.example/@bob\">@<span>bob</span></a></span> thanks</p>")),
        Ok(Verdict::Skip)
    );
    assert_eq!(assess(&post("101", "  <p> @bob</p>")), Ok(Verdict::Skip));
    assert_eq!(assess(&post("101", "<p>thanks @bob</p>")), Ok(Verdict::Publish("thanks @bob".to_string())));
}

#[test]
fn reblog_is_skipped() {
    assert_eq!(assess(&reblog("101")), Ok(Verdict::Skip));
}

#[test]
fn judge_publishes_the_text_it_is_given() {
    assert_eq!(judge(&post("101", "<p>x</p>"), "hello".to_string()), Verdict::Publish("hello".to_string()));
    assert_eq!(judge(&post("101", "<p>x</p>"), String::new()), Verdict::Publish(String::new()));
    assert_eq!(judge(&reblog("101"), "hello".to_string()), Verdict::Skip);
    assert_eq!(judge(&reply_to("101", "", "1"), "hello".to_string()), Verdict::Skip);
}

#[test]
fn skipped_posts_cost_no_delay_and_move_the_watermark() {
    let batch = vec![post("104", "<p>kept</p>"), reblog("103"), post("102", "<p>@a hi</p>"), reply_to("101", "x", "1")];
    let mirror = started("100").handle(Event::Fetched(Some(batch)));
    assert_eq!(mirror.watermark(), "103");
    assert_eq!(mirror.action(), publish("kept", &[]));
}

#[test]
fn rate_limit_keeps_watermark_and_cools_down_once() {
    let batch = vec![post("102", "<p>second</p>"), post("101", "<p>first</p>")];
    let mirror = started("100").handle(Event::Fetched(Some(batch)));
    let mirror = mirror.handle(Event::Published(Some(429)));
    assert_eq!(mirror.watermark(), "100");
    assert_eq!(mirror.stage(), Stage::CoolingDown);
    assert_eq!(mirror.action(), sleep(300));
    let mirror = mirror.handle(Event::Slept);
    assert_eq!(mirror.watermark(), "100");
    assert_eq!(mirror.action(), sleep(10));
    let mirror = mirror.handle(Event::Slept);
    assert_eq!(mirror.action(), publish("second", &[]));
    assert_eq!(mirror.watermark(), "100");
}

#[test]
fn failed_publication_keeps_watermark_and_goes_on_with_the_batch() {
    let batch = vec![post("102", "<p>second</p>"), post("101", "<p>first</p>")];
    let mirror = started("100").handle(Event::Fetched(Some(batch)));
    let mirror = mirror.handle(Event::Published(Some(500)));
    assert_eq!(mirror.watermark(), "100");
    assert_eq!(mirror.action(), sleep(10));
    let mirror = mirror.handle(Event::Slept);
    assert_eq!(mirror.action(), publish("second", &[]));
    let mirror = mirror.handle(Event::Published(Some(200)));
    assert_eq!(mirror.watermark(), "102");
}

#[test]
fn unanswered_publication_is_a_failure() {
    let mirror = started("100").handle(Event::Fetched(Some(vec![post("101", "<p>first</p>")])));
    let mirror = mirror.handle(Event::Published(None));
    assert_eq!(mirror.watermark(), "100");
    assert_eq!(mirror.action(), sleep(10));
    let mirror = mirror.handle(Event::Slept);
    assert_eq!(mirror.action(), sleep(120));
    let mirror = mirror.handle(Event::Slept);
    assert_eq!(mirror.action(), fetch("100"));
}

#[test]
fn watermark_never_moves_back_over_a_run() {
    let mut mirror = started("100");
    let mut seen = vec![mirror.watermark().clone()];
    let events = vec![
        Event::Fetched(Some(vec![post("103", "c"), reblog("102"), post("101", "a")])),
        Event::Published(Some(503)),
        Event::Slept,
        Event::Published(Some(429)),
        Event::Slept,
        Event::Slept,
        Event::Slept,
        Event::Fetched(Some(vec![post("104", "d"), post("103", "c")])),
        Event::Published(Some(200)),
        Event::Slept,
        Event::Published(Some(200)),
    ];
    for event in events {
        mirror = mirror.handle(event);
        seen.push(mirror.watermark().clone());
    }
    assert_eq!(
        seen,
        vec!["100", "100", "100", "102", "102", "102", "102", "102", "102", "103", "103", "104"]
    );
}

#[test]
fn attachments_are_uploaded_before_the_post_is_published() {
    let batch = vec![with_media("101", "<p>look</p>", &["https://cdn.example/a/one.png", "https://cdn.example/a/two.png"])];
    let mirror = started("100").handle(Event::Fetched(Some(batch)));
    assert_eq!(mirror.stage(), Stage::Uploading);
    assert_eq!(
        mirror.action(),
        Action::Upload {
            plans: vec![
                UploadPlan {
                    source_url: "https://cdn.example/a/one.png".to_string(),
                    file_name: "one.png".to_string(),
                    content_type: "application/octet-stream".to_string(),
                    description: Some("alt of https://cdn.example/a/one.png".to_string()),
                },
                UploadPlan {
                    source_url: "https://cdn.example/a/two.png".to_string(),
                    file_name: "two.png".to_string(),
                    content_type: "application/octet-stream".to_string(),
                    description: Some("alt of https://cdn.example/a/two.png".to_string()),
                },
            ]
        }
    );
    let mirror = mirror.handle(Event::Uploaded(vec![
        Some(Reply { status: 200, body: "{\"id\":\"m1\"}".to_string() }),
        Some(Reply { status: 200, body: "{\"id\":\"m2\"}".to_string() }),
    ]));
    assert_eq!(mirror.action(), publish("look", &["m1", "m2"]));
    let mirror = mirror.handle(Event::Published(Some(200)));
    assert_eq!(mirror.watermark(), "101");
}

#[test]
fn failed_upload_is_left_out_and_the_post_is_published() {
    let batch = vec![with_media("101", "<p>look</p>", &["https://cdn.example/1.png", "https://cdn.example/2.png", "https://cdn.example/3.png"])];
    let mirror = started("100").handle(Event::Fetched(Some(batch)));
    let mirror = mirror.handle(Event::Uploaded(vec![
        None,
        Some(Reply { status: 500, body: "{\"id\":\"m2\"}".to_string() }),
        Some(Reply { status: 200, body: "{\"id\":\"m3\"}".to_string() }),
    ]));
    assert_eq!(mirror.action(), publish("look", &["m3"]));
}

#[test]
fn post_is_published_without_media_when_every_upload_fails() {
    let batch = vec![with_media("101", "<p>look</p>", &["https://cdn.example/1.png"])];
    let mirror = started("100").handle(Event::Fetched(Some(batch)));
    let mirror = mirror.handle(Event::Uploaded(Vec::new()));
    assert_eq!(mirror.action(), publish("look", &[]));
}

#[test]
fn collect_media_ids_keeps_order_of_successes() {
    let replies = vec![
        Some(Reply { status: 200, body: "{\"id\":\"b\"}".to_string() }),
        Some(Reply { status: 200, body: "no json".to_string() }),
        None,
        Some(Reply { status: 200, body: "{\"id\":7}".to_string() }),
        Some(Reply { status: 201, body: "{\"id\":\"a\"}".to_string() }),
    ];
    assert_eq!(collect_media_ids(&replies), vec!["b".to_string(), "a".to_string()]);
    assert!(collect_media_ids(&Vec::new()).is_empty());
}

#[test]
fn event_that_answers_another_action_changes_nothing() {
    let mirror = started("100").handle(Event::Slept);
    assert_eq!(mirror.action(), fetch("100"));
    let mirror = mirror.handle(Event::Published(Some(200)));
    assert_eq!(mirror.action(), fetch("100"));
    let mirror = mirror.handle(Event::Uploaded(Vec::new()));
    assert_eq!(mirror.action(), fetch("100"));
    let mirror = mirror.handle(Event::Fetched(Some(vec![post("101", "<p>first</p>")])));
    assert_eq!(mirror.action(), publish("first", &[]));
    let mirror = mirror.handle(Event::Fetched(Some(vec![post("999", "<p>other</p>")])));
    assert_eq!(mirror.action(), publish("first", &[]));
    let mirror = mirror.handle(Event::Slept);
    assert_eq!(mirror.action(), publish("first", &[]));
    assert_eq!(mirror.watermark(), "100");
}

#[test]
fn publish_outcomes_by_status() {
    assert_eq!(grade_publish(Some(200)), Outcome::Accepted);
    assert_eq!(grade_publish(Some(299)), Outcome::Accepted);
    assert_eq!(grade_publish(Some(429)), Outcome::RateLimited);
    assert_eq!(grade_publish(Some(199)), Outcome::Failed);
    assert_eq!(grade_publish(Some(300)), Outcome::Failed);
    assert_eq!(grade_publish(Some(428)), Outcome::Failed);
    assert_eq!(grade_publish(Some(430)), Outcome::Failed);
    assert_eq!(grade_publish(Some(500)), Outcome::Failed);
    assert_eq!(grade_publish(None), Outcome::Failed);
}

#[test]
fn initial_watermark_is_the_most_recent_post() {
    assert_eq!(initial_watermark(&vec![post("555", "x")]), "555");
    assert_eq!(initial_watermark(&vec![post("555", "x"), post("554", "y")]), "555");
    assert_eq!(initial_watermark(&Vec::new()), "");
}

#[test]
fn owner_id_is_read_from_credential_check() {
    assert_eq!(read_owner_id("{\"id\":\"42\",\"username\":\"me\"}"), Some("42".to_string()));
    assert_eq!(read_owner_id("{\"username\":\"me\"}"), None);
    assert_eq!(read_owner_id("{\"id\":42}"), None);
    assert_eq!(read_owner_id("{\"error\":\"The access token is invalid\"}"), None);
    assert_eq!(read_owner_id("Bad gateway"), None);
}
