use spotify_import::import::{plan_chunks, ImportAction, ImportEvent, ImportState, Importer};
use spotify_import::query::{build_queries, MetadataRecord, SearchQuery};
use spotify_import::resolve::{get_track_ids, Resolution, SearchOutcome, TrackId};

fn record(title: Option<&str>, artist: Option<&str>) -> MetadataRecord {
    MetadataRecord {
        title: title.map(|t| t.to_string()),
        artist: artist.map(|a| a.to_string()),
    }
}

fn ids(n: usize) -> Vec<TrackId> {
    (0..n).map(|i| TrackId(format!("track{}", i))).collect()
}

#[test]
fn missing_title_or_artist_is_excluded() {
    let records = vec![
        record(Some("Song"), None),
        record(None, Some("Band")),
        record(None, None),
    ];
    let queries = build_queries(&records);
    assert_eq!(queries.len(), 0);
}

#[test]
fn try_from_rejects_incomplete_record() {
    assert!(SearchQuery::try_from(&record(Some("Song"), None)).is_none());
    assert!(SearchQuery::try_from(&record(None, Some("Band"))).is_none());
    assert!(SearchQuery::try_from(&record(None, None)).is_none());
}

#[test]
fn complete_record_yields_exact_query() {
    let queries = build_queries(&vec![record(Some("My Song"), Some("The Band"))]);
    assert_eq!(queries.len(), 1);
    assert_eq!(queries[0].0, "My Song - The Band");
}

#[test]
fn query_preserves_casing_and_whitespace() {
    let q = SearchQuery::try_from(&record(Some("  mY soNG "), Some(" tHe BAND"))).unwrap();
    assert_eq!(q.0, "  mY soNG  -  tHe BAND");
}

#[test]
fn drops_keep_order_of_remaining_records() {
    let records = vec![
        record(Some("A"), Some("X")),
        record(Some("gone"), None),
        record(Some("B"), Some("Y")),
    ];
    let queries = build_queries(&records);
    assert_eq!(queries.len(), 2);
    assert_eq!(queries[0].0, "A - X");
    assert_eq!(queries[1].0, "B - Y");
}

#[test]
fn miss_is_logged_and_not_resolved() {
    let queries = vec![SearchQuery("ghost song - nobody".to_string())];
    let outcomes = vec![SearchOutcome::NoMatch];
    let r = get_track_ids(&queries, &outcomes);
    assert_eq!(r.resolved.len(), 0);
    assert_eq!(r.misses.len(), 1);
    assert_eq!(r.misses[0].0, "ghost song - nobody");
}

#[test]
fn resolution_keeps_query_order() {
    let queries = vec![
        SearchQuery("a".to_string()),
        SearchQuery("b".to_string()),
        SearchQuery("c".to_string()),
    ];
    let outcomes = vec![
        SearchOutcome::Found(TrackId("id_a".to_string())),
        SearchOutcome::NoMatch,
        SearchOutcome::Found(TrackId("id_c".to_string())),
    ];
    let r = get_track_ids(&queries, &outcomes);
    assert_eq!(r.resolved.len(), 2);
    assert_eq!(r.resolved[0].0, "id_a");
    assert_eq!(r.resolved[1].0, "id_c");
    assert_eq!(r.misses.len(), 1);
    assert_eq!(r.misses[0].0, "b");
}

#[test]
fn record_outcome_accumulates() {
    let mut r = Resolution::new();
    r.record_outcome(
        SearchQuery("hit".to_string()),
        SearchOutcome::Found(TrackId("id1".to_string())),
    );
    r.record_outcome(SearchQuery("miss".to_string()), SearchOutcome::NoMatch);
    assert_eq!(r.resolved.len(), 1);
    assert_eq!(r.resolved[0].0, "id1");
    assert_eq!(r.misses.len(), 1);
    assert_eq!(r.misses[0].0, "miss");
}

#[test]
fn chunking_two_hundred_fifty() {
    let plan = plan_chunks(&ids(250));
    assert_eq!(plan.len(), 3);
    assert_eq!(plan[0].items.len(), 100);
    assert_eq!(plan[0].position, 0);
    assert_eq!(plan[1].items.len(), 100);
    assert_eq!(plan[1].position, 100);
    assert_eq!(plan[2].items.len(), 50);
    assert_eq!(plan[2].position, 200);
    assert_eq!(plan[0].items[0].0, "track0");
    assert_eq!(plan[1].items[0].0, "track100");
    assert_eq!(plan[2].items[49].0, "track249");
}

#[test]
fn chunking_exact_multiple() {
    let plan = plan_chunks(&ids(200));
    assert_eq!(plan.len(), 2);
    assert_eq!(plan[0].items.len(), 100);
    assert_eq!(plan[1].items.len(), 100);
    assert_eq!(plan[1].position, 100);
}

#[test]
fn chunking_single_partial() {
    let plan = plan_chunks(&ids(1));
    assert_eq!(plan.len(), 1);
    assert_eq!(plan[0].items.len(), 1);
    assert_eq!(plan[0].position, 0);
}

#[test]
fn empty_run_creates_playlist_and_adds_nothing() {
    let records: Vec<MetadataRecord> = vec![];
    let queries = build_queries(&records);
    assert_eq!(queries.len(), 0);
    let outcomes: Vec<SearchOutcome> = vec![];
    let r = get_track_ids(&queries, &outcomes);
    assert_eq!(r.resolved.len(), 0);
    assert_eq!(r.misses.len(), 0);

    let mut importer = Importer::new("Imported".to_string(), &r.resolved);
    assert_eq!(importer.plan.len(), 0);
    assert!(matches!(importer.next_action(), ImportAction::FetchUser));
    importer.on_event(ImportEvent::GotUser("user1".to_string()));
    match importer.next_action() {
        ImportAction::CreatePlaylist {
            user_id,
            name,
            public,
            collaborative,
        } => {
            assert_eq!(user_id, "user1");
            assert_eq!(name, "Imported");
            assert!(!public);
            assert!(!collaborative);
        }
        _ => panic!("expected a create-playlist action"),
    }
    importer.on_event(ImportEvent::GotPlaylist("pl1".to_string()));
    assert!(matches!(
        importer.state,
        ImportState::Completed { .. }
    ));
    match importer.next_action() {
        ImportAction::Finish { playlist_id } => assert_eq!(playlist_id, "pl1"),
        _ => panic!("expected the import to finish with no add request"),
    }
}

#[test]
fn hundred_fifty_files_two_batches_two_misses() {
    let mut records = Vec::new();
    for i in 0..150 {
        records.push(record(Some(&format!("Song {}", i)), Some("Band")));
    }
    let queries = build_queries(&records);
    assert_eq!(queries.len(), 150);

    let mut outcomes = Vec::new();
    for i in 0..150 {
        if i == 10 || i == 20 {
            outcomes.push(SearchOutcome::NoMatch);
        } else {
            outcomes.push(SearchOutcome::Found(TrackId(format!("id{}", i))));
        }
    }
    let r = get_track_ids(&queries, &outcomes);
    assert_eq!(r.resolved.len(), 148);
    assert_eq!(r.misses.len(), 2);
    assert_eq!(r.misses[0].0, "Song 10 - Band");
    assert_eq!(r.misses[1].0, "Song 20 - Band");

    let plan = plan_chunks(&r.resolved);
    assert_eq!(plan.len(), 2);
    assert_eq!(plan[0].items.len(), 100);
    assert_eq!(plan[0].position, 0);
    assert_eq!(plan[1].items.len(), 48);
    assert_eq!(plan[1].position, 100);
}

#[test]
fn second_batch_failure_aborts_without_retry() {
    let mut importer = Importer::new("Imported".to_string(), &ids(148));
    importer.on_event(ImportEvent::GotUser("user1".to_string()));
    importer.on_event(ImportEvent::GotPlaylist("pl1".to_string()));

    match importer.next_action() {
        ImportAction::AddChunk {
            playlist_id,
            items,
            position,
        } => {
            assert_eq!(playlist_id, "pl1");
            assert_eq!(items.len(), 100);
            assert_eq!(position, 0);
        }
        _ => panic!("expected the first add request"),
    }
    importer.on_event(ImportEvent::ChunkAccepted);

    match importer.next_action() {
        ImportAction::AddChunk {
            items, position, ..
        } => {
            assert_eq!(items.len(), 48);
            assert_eq!(position, 100);
        }
        _ => panic!("expected the second add request"),
    }
    importer.on_event(ImportEvent::CallFailed);

    assert!(matches!(importer.state, ImportState::Failed));
    assert!(matches!(importer.next_action(), ImportAction::Abort));
}

#[test]
fn unexpected_answer_aborts() {
    let mut importer = Importer::new("Imported".to_string(), &ids(3));
    importer.on_event(ImportEvent::ChunkAccepted);
    assert!(matches!(importer.state, ImportState::Failed));
    assert!(matches!(importer.next_action(), ImportAction::Abort));
}

#[test]
fn user_fetch_failure_is_fatal() {
    let mut importer = Importer::new("Imported".to_string(), &ids(5));
    assert!(matches!(importer.next_action(), ImportAction::FetchUser));
    importer.on_event(ImportEvent::CallFailed);
    assert!(matches!(importer.state, ImportState::Failed));
    assert!(matches!(importer.next_action(), ImportAction::Abort));
}

#[test]
fn playlist_creation_failure_is_fatal() {
    let mut importer = Importer::new("Imported".to_string(), &ids(5));
    importer.on_event(ImportEvent::GotUser("user1".to_string()));
    importer.on_event(ImportEvent::CallFailed);
    assert!(matches!(importer.state, ImportState::Failed));
    assert!(matches!(importer.next_action(), ImportAction::Abort));
}

#[test]
fn full_import_completes_in_chunk_order() {
    let mut importer = Importer::new("Imported".to_string(), &ids(250));
    importer.on_event(ImportEvent::GotUser("user1".to_string()));
    importer.on_event(ImportEvent::GotPlaylist("pl1".to_string()));
    let mut positions = Vec::new();
    loop {
        match importer.next_action() {
            ImportAction::AddChunk { position, .. } => {
                positions.push(position);
                importer.on_event(ImportEvent::ChunkAccepted);
            }
            ImportAction::Finish { playlist_id } => {
                assert_eq!(playlist_id, "pl1");
                break;
            }
            _ => panic!("expected only add requests until the import finishes"),
        }
    }
    assert_eq!(positions, vec![0, 100, 200]);
}
