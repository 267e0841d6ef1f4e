use embed_ingest::config::{ConfigError, RunConfig, EMBED_RETRY_TIMES};
use embed_ingest::response::{Outcome, Response};
use embed_ingest::section::Limits;

#[test]
fn html_response_exact() {
    let r = Response::html("ok");
    assert_eq!(r.status, 200);
    assert_eq!(r.headers, vec![(String::from("content-type"), String::from("text/html"))]);
    assert_eq!(r.body, b"ok".to_vec());
}

#[test]
fn html_response_body_is_utf8() {
    let r = Response::html("é→");
    assert_eq!(r.body, "é→".as_bytes().to_vec());
    assert_eq!(r.body.len(), 5);
}

#[test]
fn messages_exact() {
    assert_eq!(Outcome::CreateFailed.message(), "Cannot create collection");
    assert_eq!(Outcome::QueryFailed.message(), "Cannot query database!");
    assert_eq!(Outcome::UpsertFailed.message(), "Cannot upsert into database!");
    assert_eq!(
        Outcome::Inserted { inserted: 1, total: 43 }.message(),
        "Successfully inserted 1 records. The collection now has 43 records in total."
    );
    assert_eq!(
        Outcome::Inserted { inserted: 0, total: 0 }.message(),
        "Successfully inserted 0 records. The collection now has 0 records in total."
    );
    assert_eq!(
        Outcome::Inserted { inserted: 120, total: 18446744073709551615 }.message(),
        "Successfully inserted 120 records. The collection now has 18446744073709551615 records in total."
    );
}

#[test]
fn outcome_response_carries_the_message() {
    for o in [
        Outcome::CreateFailed,
        Outcome::QueryFailed,
        Outcome::UpsertFailed,
        Outcome::Inserted { inserted: 5, total: 9 },
    ] {
        let r = o.response();
        assert_eq!(r.status, 200);
        assert_eq!(r.body, o.message().into_bytes());
        assert_eq!(r, Response::html(&o.message()));
    }
}

#[test]
fn config_from_query() {
    let c = RunConfig::from_query(Some("docs"), Some("1536"), false).unwrap();
    assert_eq!(c.collection_name, "docs");
    assert_eq!(c.vector_size, 1536);
    assert!(!c.reset);
    assert_eq!(c.limits, Limits { soft_limit: 20000, soft_minimum: 100 });
    let c = RunConfig::from_query(Some("docs"), Some("3"), true).unwrap();
    assert_eq!(c.vector_size, 3);
    assert!(c.reset);
}

#[test]
fn config_errors() {
    assert_eq!(
        RunConfig::from_query(None, Some("3"), false),
        Err(ConfigError::MissingCollectionName)
    );
    assert_eq!(RunConfig::from_query(None, None, true), Err(ConfigError::MissingCollectionName));
    assert_eq!(
        RunConfig::from_query(None, Some("x"), true),
        Err(ConfigError::MissingCollectionName)
    );
    assert_eq!(
        RunConfig::from_query(Some("docs"), None, false),
        Err(ConfigError::MissingVectorSize)
    );
    assert_eq!(
        RunConfig::from_query(Some("docs"), Some("three"), false),
        Err(ConfigError::MalformedVectorSize)
    );
    assert_eq!(
        RunConfig::from_query(Some("docs"), Some("-3"), false),
        Err(ConfigError::MalformedVectorSize)
    );
    assert_eq!(
        RunConfig::from_query(Some("docs"), Some(""), false),
        Err(ConfigError::MalformedVectorSize)
    );
}

#[test]
fn retry_budget() {
    assert_eq!(EMBED_RETRY_TIMES, 3);
}
