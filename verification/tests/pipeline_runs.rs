use embed_ingest::config::RunConfig;
use embed_ingest::pipeline::{Action, Event, Phase, Pipeline};
use embed_ingest::point::Point;
use embed_ingest::response::{Outcome, Response};
use embed_ingest::section::Limits;

fn config(reset: bool, vector_size: u64, soft_minimum: usize) -> RunConfig {
    RunConfig {
        collection_name: String::from("docs"),
        vector_size,
        reset,
        limits: Limits { soft_limit: 20000, soft_minimum },
    }
}

fn respond(text: &str) -> Action {
    Action::Respond { response: Response::html(text) }
}

fn section(len: usize, letter: &str) -> String {
    format!("{}\n\n", letter.repeat(len - 2))
}

#[test]
fn reset_run_numbers_its_first_point_zero() {
    let body = section(150, "x");
    assert_eq!(body.len(), 150);
    let cfg = RunConfig::from_query(Some("docs"), Some("3"), true).unwrap();
    let mut p = Pipeline::start(&cfg, body.as_bytes());
    assert_eq!(p.phase(), Phase::Deleting);
    assert_eq!(p.action(), Action::DeleteCollection);
    assert_eq!(p.step(Event::CollectionDeleted), Action::CreateCollection { vector_size: 3 });
    assert_eq!(
        p.step(Event::CollectionCreated { ok: true }),
        Action::EmbedSection { text: body.clone() }
    );
    let upsert = p.step(Event::SectionEmbedded { vectors: Some(1) });
    assert_eq!(upsert, Action::UpsertPoints { points: vec![Point { id: 0, text: body.clone() }] });
    assert_eq!(p.points()[0].id, 0);
    assert_eq!(p.step(Event::PointsUpserted { ok: true }), Action::CountPoints);
    assert_eq!(
        p.step(Event::PointsCounted { count: Some(1) }),
        respond("Successfully inserted 1 records. The collection now has 1 records in total.")
    );
    assert_eq!(p.outcome(), Some(Outcome::Inserted { inserted: 1, total: 1 }));
}

#[test]
fn continued_run_starts_at_the_stored_count() {
    let body = section(150, "y");
    let cfg = RunConfig::from_query(Some("docs"), Some("3"), false).unwrap();
    let mut p = Pipeline::start(&cfg, body.as_bytes());
    assert_eq!(p.phase(), Phase::Counting);
    assert_eq!(p.action(), Action::CountPoints);
    assert_eq!(
        p.step(Event::PointsCounted { count: Some(42) }),
        Action::EmbedSection { text: body.clone() }
    );
    assert_eq!(
        p.step(Event::SectionEmbedded { vectors: Some(1) }),
        Action::UpsertPoints { points: vec![Point { id: 42, text: body.clone() }] }
    );
    assert_eq!(p.step(Event::PointsUpserted { ok: true }), Action::CountPoints);
    assert_eq!(p.phase(), Phase::Recounting);
    let answer = p.step(Event::PointsCounted { count: Some(43) });
    assert_eq!(
        answer,
        respond("Successfully inserted 1 records. The collection now has 43 records in total.")
    );
    match answer {
        Action::Respond { response } => assert_eq!(response.status, 200),
        other => panic!("{:?}", other),
    }
}

#[test]
fn failed_embedding_is_skipped() {
    let first = section(20, "a");
    let second = section(20, "b");
    let third = section(20, "c");
    let body = format!("{}{}{}", first, second, third);
    let mut p = Pipeline::start(&config(false, 3, 5), body.as_bytes());
    assert_eq!(
        p.step(Event::PointsCounted { count: Some(10) }),
        Action::EmbedSection { text: first.clone() }
    );
    assert_eq!(
        p.step(Event::SectionEmbedded { vectors: Some(1) }),
        Action::EmbedSection { text: second.clone() }
    );
    assert_eq!(
        p.step(Event::SectionEmbedded { vectors: None }),
        Action::EmbedSection { text: third.clone() }
    );
    assert_eq!(p.points().len(), 1);
    assert_eq!(
        p.step(Event::SectionEmbedded { vectors: Some(1) }),
        Action::UpsertPoints {
            points: vec![Point { id: 10, text: first }, Point { id: 11, text: third }]
        }
    );
    assert_eq!(p.step(Event::PointsUpserted { ok: true }), Action::CountPoints);
    let answer = p.step(Event::PointsCounted { count: Some(12) });
    assert_eq!(
        answer,
        respond("Successfully inserted 2 records. The collection now has 12 records in total.")
    );
    match answer {
        Action::Respond { response } => assert_eq!(response.status, 200),
        other => panic!("{:?}", other),
    }
}

#[test]
fn failed_upsert_is_answered_with_200() {
    let body = section(150, "z");
    let mut p = Pipeline::start(&config(true, 3, 100), body.as_bytes());
    p.step(Event::CollectionDeleted);
    p.step(Event::CollectionCreated { ok: true });
    p.step(Event::SectionEmbedded { vectors: Some(1) });
    let answer = p.step(Event::PointsUpserted { ok: false });
    match &answer {
        Action::Respond { response } => {
            assert_eq!(response.status, 200);
            assert_eq!(response.body, b"Cannot upsert into database!".to_vec());
            assert_eq!(
                response.headers,
                vec![(String::from("content-type"), String::from("text/html"))]
            );
        },
        other => panic!("{:?}", other),
    }
    assert_eq!(p.outcome(), Some(Outcome::UpsertFailed));
    assert_eq!(p.phase(), Phase::Done(Outcome::UpsertFailed));
}

#[test]
fn failed_creation() {
    let mut p = Pipeline::start(&config(true, 3, 100), b"text\n\n");
    assert_eq!(p.step(Event::CollectionDeleted), Action::CreateCollection { vector_size: 3 });
    assert_eq!(p.step(Event::CollectionCreated { ok: false }), respond("Cannot create collection"));
    assert_eq!(p.outcome(), Some(Outcome::CreateFailed));
}

#[test]
fn failed_first_count() {
    let mut p = Pipeline::start(&config(false, 3, 100), b"text\n\n");
    assert_eq!(p.step(Event::PointsCounted { count: None }), respond("Cannot query database!"));
    assert_eq!(p.outcome(), Some(Outcome::QueryFailed));
}

#[test]
fn failed_recount_is_reported_as_failed_upsert() {
    let mut p = Pipeline::start(&config(false, 3, 100), b"");
    assert_eq!(
        p.step(Event::PointsCounted { count: Some(5) }),
        Action::UpsertPoints { points: vec![] }
    );
    assert_eq!(p.step(Event::PointsUpserted { ok: true }), Action::CountPoints);
    assert_eq!(
        p.step(Event::PointsCounted { count: None }),
        respond("Cannot upsert into database!")
    );
}

#[test]
fn document_without_sections_upserts_nothing() {
    let mut p = Pipeline::start(&config(true, 8, 100), b"too short\n\n");
    p.step(Event::CollectionDeleted);
    assert_eq!(
        p.step(Event::CollectionCreated { ok: true }),
        Action::UpsertPoints { points: vec![] }
    );
    assert_eq!(p.step(Event::PointsUpserted { ok: true }), Action::CountPoints);
    assert_eq!(
        p.step(Event::PointsCounted { count: Some(0) }),
        respond("Successfully inserted 0 records. The collection now has 0 records in total.")
    );
}

#[test]
fn several_vectors_for_one_section() {
    let first = section(30, "a");
    let second = section(30, "b");
    let body = format!("{}{}", first, second);
    let mut p = Pipeline::start(&config(false, 3, 5), body.as_bytes());
    p.step(Event::PointsCounted { count: Some(100) });
    p.step(Event::SectionEmbedded { vectors: Some(3) });
    assert_eq!(p.points().len(), 3);
    let upsert = p.step(Event::SectionEmbedded { vectors: Some(2) });
    let expected = vec![
        Point { id: 100, text: first.clone() },
        Point { id: 101, text: first.clone() },
        Point { id: 102, text: first.clone() },
        Point { id: 103, text: second.clone() },
        Point { id: 104, text: second.clone() },
    ];
    assert_eq!(upsert, Action::UpsertPoints { points: expected.clone() });
    assert_eq!(p.points(), &expected);
    for (i, point) in p.points().iter().enumerate() {
        assert_eq!(point.id, 100 + i as u64);
    }
}

#[test]
fn no_vectors_for_a_section() {
    let body = section(30, "a");
    let mut p = Pipeline::start(&config(true, 3, 5), body.as_bytes());
    p.step(Event::CollectionDeleted);
    p.step(Event::CollectionCreated { ok: true });
    assert_eq!(
        p.step(Event::SectionEmbedded { vectors: Some(0) }),
        Action::UpsertPoints { points: vec![] }
    );
}

#[test]
fn body_that_is_not_utf8_aborts_after_the_collection_is_ready() {
    let mut p = Pipeline::start(&config(true, 3, 5), &[b'a', 0xFF, b'\n', b'\n']);
    assert_eq!(p.action(), Action::DeleteCollection);
    assert_eq!(p.step(Event::CollectionDeleted), Action::CreateCollection { vector_size: 3 });
    assert_eq!(p.step(Event::CollectionCreated { ok: true }), Action::Abort);
    assert_eq!(p.phase(), Phase::Aborted);
    assert_eq!(p.outcome(), None);
    assert_eq!(p.step(Event::PointsUpserted { ok: true }), Action::Abort);

    let mut p = Pipeline::start(&config(false, 3, 5), &[0xC3, 0x28]);
    assert_eq!(p.step(Event::PointsCounted { count: Some(1) }), Action::Abort);
    let mut p = Pipeline::start(&config(false, 3, 5), &[0xC3, 0x28]);
    assert_eq!(p.step(Event::PointsCounted { count: None }), respond("Cannot query database!"));
}

#[test]
fn stray_events_change_nothing() {
    let body = section(30, "a");
    let mut p = Pipeline::start(&config(true, 3, 5), body.as_bytes());
    assert_eq!(p.step(Event::PointsCounted { count: Some(9) }), Action::DeleteCollection);
    assert_eq!(p.step(Event::SectionEmbedded { vectors: Some(4) }), Action::DeleteCollection);
    assert_eq!(p.phase(), Phase::Deleting);
    assert_eq!(p.step(Event::CollectionDeleted), Action::CreateCollection { vector_size: 3 });
    assert_eq!(
        p.step(Event::PointsUpserted { ok: false }),
        Action::CreateCollection { vector_size: 3 }
    );
    p.step(Event::CollectionCreated { ok: true });
    assert_eq!(p.step(Event::CollectionDeleted), Action::EmbedSection { text: body.clone() });
    assert!(p.points().is_empty());
    p.step(Event::SectionEmbedded { vectors: Some(1) });
    p.step(Event::PointsUpserted { ok: true });
    let done = p.step(Event::PointsCounted { count: Some(1) });
    assert_eq!(p.step(Event::CollectionDeleted), done);
    assert_eq!(p.step(Event::PointsCounted { count: Some(77) }), done);
}

#[test]
fn admits_guards_the_identifiers() {
    let body = section(30, "a");
    let mut p = Pipeline::start(&config(false, 3, 5), body.as_bytes());
    assert!(p.admits(Event::SectionEmbedded { vectors: Some(usize::MAX) }));
    p.step(Event::PointsCounted { count: Some(u64::MAX - 2) });
    assert!(p.admits(Event::SectionEmbedded { vectors: Some(2) }));
    assert!(!p.admits(Event::SectionEmbedded { vectors: Some(3) }));
    assert!(p.admits(Event::SectionEmbedded { vectors: None }));
    assert!(p.admits(Event::CollectionDeleted));
    let upsert = p.step(Event::SectionEmbedded { vectors: Some(2) });
    assert_eq!(
        upsert,
        Action::UpsertPoints {
            points: vec![
                Point { id: u64::MAX - 2, text: body.clone() },
                Point { id: u64::MAX - 1, text: body.clone() },
            ]
        }
    );
}

#[test]
fn sections_come_from_the_body_with_the_given_limits() {
    let body = "para one\n\nout```\ncode\n\n```\n\npara two\n";
    let mut p = Pipeline::start(&config(false, 3, 5), body.as_bytes());
    assert_eq!(
        p.step(Event::PointsCounted { count: Some(0) }),
        Action::EmbedSection { text: String::from("para one\n\n") }
    );
    assert_eq!(
        p.step(Event::SectionEmbedded { vectors: Some(1) }),
        Action::EmbedSection { text: String::from("out```\ncode\n\n") }
    );
    match p.step(Event::SectionEmbedded { vectors: Some(1) }) {
        Action::UpsertPoints { points } => {
            assert_eq!(points.len(), 2);
            assert_eq!(points[1].payload().get("text").unwrap().as_str(), Some("out```\ncode\n\n"));
        },
        other => panic!("{:?}", other),
    }
}

#[test]
fn try_step_refuses_what_the_identifiers_cannot_take() {
    let body = section(30, "a");
    let mut p = Pipeline::start(&config(false, 3, 5), body.as_bytes());
    assert_eq!(
        p.try_step(Event::PointsCounted { count: Some(u64::MAX - 1) }),
        Some(Action::EmbedSection { text: body.clone() })
    );
    assert_eq!(p.try_step(Event::SectionEmbedded { vectors: Some(2) }), None);
    assert_eq!(p.phase(), Phase::Embedding);
    assert!(p.points().is_empty());
    assert_eq!(p.action(), Action::EmbedSection { text: body.clone() });
    assert_eq!(
        p.try_step(Event::SectionEmbedded { vectors: Some(1) }),
        Some(Action::UpsertPoints { points: vec![Point { id: u64::MAX - 1, text: body }] })
    );
}
