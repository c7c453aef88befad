use encrypted_search::doc::{DocId, Document};
use encrypted_search::ingest::{IngestEvent, IngestRequest, Ingestion};
use encrypted_search::search::{
    admits, fetch_failure, gather, resolve_all, Coordinator, SearchError, SearchEvent,
    SearchRequest, SHORTEST_PHRASE, TOO_FEW_CHARACTERS,
};
use encrypted_search::store::{FetchError, Store};

fn tree() -> sled::Tree {
    let db = sled::Config::new().temporary(true).open().unwrap();
    db.open_tree("emails").unwrap()
}

/// A stand-in for the cipher: the identifier's bytes, each turned over.
fn seal(id: DocId) -> Vec<u8> {
    id.value.to_be_bytes().iter().map(|b| b ^ 0x5a).collect()
}

/// A stand-in for the index: the documents it was given, searched by
/// substring.
fn matches(indexed: &[(DocId, String)], phrase: &str) -> Vec<DocId> {
    indexed.iter().filter(|(_, content)| content.contains(phrase)).map(|(id, _)| *id).collect()
}

/// Ingests three documents into `tree` and gives back what the index holds.
fn ingest_three(tree: &sled::Tree) -> Vec<(DocId, String)> {
    let corpus = vec![
        Document { id: DocId { value: 11 }, content: "alpha test".to_string() },
        Document { id: DocId { value: 22 }, content: "beta content".to_string() },
        Document { id: DocId { value: 33 }, content: "gamma alpha".to_string() },
    ];
    let mut run = Ingestion::new(Store::new(tree.clone()), 1);
    let mut corpus = Some(corpus);
    let mut indexed = Vec::new();
    loop {
        let event = match run.pending() {
            IngestRequest::Load => IngestEvent::Loaded { corpus: corpus.take().unwrap() },
            IngestRequest::Encrypt { id } => IngestEvent::Key { key: seal(id) },
            IngestRequest::Index { id, content } => {
                indexed.push((id, content));
                IngestEvent::Indexed
            }
            IngestRequest::Done => break,
            IngestRequest::Halt { error } => panic!("halted: {:?}", error),
        };
        run.advance(event);
    }
    indexed
}

/// Serves one phrase with the stand-in index and cipher.
fn serve(
    worker: &mut Coordinator,
    indexed: &[(DocId, String)],
    phrase: &str,
) -> Result<Vec<String>, SearchError> {
    assert_eq!(worker.pending(), SearchRequest::Await);
    assert_eq!(worker.advance(SearchEvent::Submitted { phrase: phrase.to_string() }), None);
    let event = match worker.pending() {
        SearchRequest::Query { phrase } => SearchEvent::Matches {
            keys: matches(indexed, &phrase).into_iter().map(seal).collect(),
        },
        SearchRequest::Await => panic!("the phrase was not taken up"),
    };
    match worker.advance(event) {
        Some(reply) => reply,
        None => panic!("no reply"),
    }
}

#[test]
fn a_phrase_finds_the_documents_that_hold_it() {
    let tree = tree();
    let indexed = ingest_three(&tree);
    let mut worker = Coordinator::new(Store::new(tree));
    assert_eq!(
        serve(&mut worker, &indexed, "alpha"),
        Ok(vec!["alpha test".to_string(), "gamma alpha".to_string()])
    );
    assert!(worker.is_idle());
}

#[test]
fn a_phrase_that_nothing_holds_finds_nothing() {
    let tree = tree();
    let indexed = ingest_three(&tree);
    let mut worker = Coordinator::new(Store::new(tree));
    assert_eq!(serve(&mut worker, &indexed, "zzz"), Ok(Vec::new()));
    assert!(worker.is_idle());
}

#[test]
fn a_phrase_of_two_characters_is_not_submitted() {
    assert_eq!(TOO_FEW_CHARACTERS, 2);
    assert!(!admits("al"));
    assert!(!admits("\u{e9}\u{e9}"));
    assert!(!admits("\u{1f600}\u{1f600}"));
    assert!(!admits("\u{e9}a"));
    assert!(!admits("a"));
    assert!(!admits(""));
}

#[test]
fn admits_phrases_of_four_bytes_and_more() {
    assert_eq!(SHORTEST_PHRASE, 4);
    assert!(!admits("abc"));
    assert!(admits("abcd"));
    assert!(admits("alpha"));
    assert!(admits("\u{e9}\u{e9}\u{e9}"));
    assert!(admits("a\u{e9}b"));
    assert!(admits("ab\u{e9}"));
    assert!(admits("\u{1f600}ab"));
}

#[test]
fn requests_are_served_in_turn() {
    let tree = tree();
    let indexed = ingest_three(&tree);
    let mut worker = Coordinator::new(Store::new(tree));
    assert_eq!(serve(&mut worker, &indexed, "beta"), Ok(vec!["beta content".to_string()]));
    assert_eq!(serve(&mut worker, &indexed, "gamma"), Ok(vec!["gamma alpha".to_string()]));
    assert_eq!(
        serve(&mut worker, &indexed, "t"),
        Ok(vec!["alpha test".to_string(), "beta content".to_string()])
    );
}

#[test]
fn a_phrase_submitted_to_a_busy_coordinator_is_not_taken_up() {
    let tree = tree();
    let indexed = ingest_three(&tree);
    let mut worker = Coordinator::new(Store::new(tree));
    assert_eq!(worker.advance(SearchEvent::Submitted { phrase: "beta".to_string() }), None);
    assert!(!worker.is_idle());
    assert_eq!(worker.advance(SearchEvent::Submitted { phrase: "gamma".to_string() }), None);
    assert_eq!(worker.pending(), SearchRequest::Query { phrase: "beta".to_string() });
    let keys = matches(&indexed, "beta").into_iter().map(seal).collect();
    assert_eq!(
        worker.advance(SearchEvent::Matches { keys }),
        Some(Ok(vec!["beta content".to_string()]))
    );
    assert_eq!(worker.pending(), SearchRequest::Await);
}

#[test]
fn a_failed_query_is_replied_to_and_the_next_is_served() {
    let tree = tree();
    let indexed = ingest_three(&tree);
    let mut worker = Coordinator::new(Store::new(tree));
    assert_eq!(worker.advance(SearchEvent::Submitted { phrase: "alpha".to_string() }), None);
    assert_eq!(worker.advance(SearchEvent::QueryFailed), Some(Err(SearchError::Index)));
    assert!(worker.is_idle());
    assert_eq!(serve(&mut worker, &indexed, "beta"), Ok(vec!["beta content".to_string()]));
}

#[test]
fn a_failed_cipher_is_replied_to() {
    let mut worker = Coordinator::new(Store::new(tree()));
    assert_eq!(worker.advance(SearchEvent::Submitted { phrase: "alpha".to_string() }), None);
    assert_eq!(worker.advance(SearchEvent::CipherFailed), Some(Err(SearchError::Cipher)));
    assert!(worker.is_idle());
}

#[test]
fn a_match_without_content_is_reported() {
    let tree = tree();
    ingest_three(&tree);
    let mut worker = Coordinator::new(Store::new(tree));
    assert_eq!(worker.advance(SearchEvent::Submitted { phrase: "alpha".to_string() }), None);
    let ids = vec![DocId { value: 11 }, DocId { value: 99 }, DocId { value: 33 }];
    let keys = ids.into_iter().map(seal).collect();
    assert_eq!(
        worker.advance(SearchEvent::Matches { keys }),
        Some(Err(SearchError::Missing { position: 1 }))
    );
    assert!(worker.is_idle());
}

#[test]
fn events_that_were_not_asked_for_change_nothing() {
    let mut worker = Coordinator::new(Store::new(tree()));
    assert_eq!(worker.advance(SearchEvent::Matches { keys: Vec::new() }), None);
    assert_eq!(worker.advance(SearchEvent::QueryFailed), None);
    assert_eq!(worker.advance(SearchEvent::CipherFailed), None);
    assert!(worker.is_idle());
    assert_eq!(worker.pending(), SearchRequest::Await);
}

#[test]
fn a_coordinator_reads_what_a_run_is_still_writing() {
    let tree = tree();
    let corpus = vec![
        Document { id: DocId { value: 1 }, content: "first".to_string() },
        Document { id: DocId { value: 2 }, content: "second".to_string() },
    ];
    let mut run = Ingestion::new(Store::new(tree.clone()), 1);
    let mut worker = Coordinator::new(Store::new(tree));
    run.advance(IngestEvent::Loaded { corpus });
    run.advance(IngestEvent::Key { key: seal(DocId { value: 1 }) });
    run.advance(IngestEvent::Indexed);
    let indexed = vec![(DocId { value: 1 }, "first".to_string())];
    assert_eq!(serve(&mut worker, &indexed, "first"), Ok(vec!["first".to_string()]));
    assert_eq!(serve(&mut worker, &indexed, "second"), Ok(Vec::new()));
}

#[test]
fn resolve_all_keeps_the_order_of_the_keys() {
    let mut store = Store::new(tree());
    assert!(store.put(&[1], "one").is_ok());
    assert!(store.put(&[2], "two").is_ok());
    assert!(store.put(&[3], "three").is_ok());
    assert_eq!(
        resolve_all(&store, &vec![vec![3], vec![1], vec![2], vec![1]]),
        Ok(vec!["three".to_string(), "one".to_string(), "two".to_string(), "one".to_string()])
    );
    assert_eq!(resolve_all(&store, &Vec::new()), Ok(Vec::new()));
}

#[test]
fn resolve_all_stops_at_the_first_key_without_content() {
    let mut store = Store::new(tree());
    assert!(store.put(&[1], "one").is_ok());
    assert_eq!(
        resolve_all(&store, &vec![vec![1], vec![7], vec![8]]),
        Err(SearchError::Missing { position: 1 })
    );
    assert_eq!(resolve_all(&store, &vec![vec![7]]), Err(SearchError::Missing { position: 0 }));
}

#[test]
fn fetch_failure_names_the_position() {
    assert_eq!(fetch_failure(FetchError::Missing, 3), SearchError::Missing { position: 3 });
    assert_eq!(fetch_failure(FetchError::Unavailable, 0), SearchError::Store { position: 0 });
}

#[test]
fn gather_keeps_the_contents_in_order() {
    let answers = vec![Ok("a".to_string()), Ok("b".to_string()), Ok("a".to_string())];
    assert_eq!(gather(&answers), Ok(vec!["a".to_string(), "b".to_string(), "a".to_string()]));
    assert_eq!(gather(&Vec::new()), Ok(Vec::new()));
}

#[test]
fn gather_reports_the_first_failure() {
    let answers = vec![
        Ok("a".to_string()),
        Err(FetchError::Unavailable),
        Err(FetchError::Missing),
        Ok("b".to_string()),
    ];
    assert_eq!(gather(&answers), Err(SearchError::Store { position: 1 }));
    let answers = vec![Err(FetchError::Missing), Err(FetchError::Unavailable)];
    assert_eq!(gather(&answers), Err(SearchError::Missing { position: 0 }));
    let answers = vec![Ok("a".to_string()), Ok("b".to_string()), Err(FetchError::Missing)];
    assert_eq!(gather(&answers), Err(SearchError::Missing { position: 2 }));
}
