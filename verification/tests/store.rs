use encrypted_search::store::{content_from, decode_content, write_outcome, FetchError, Store};

fn empty_store() -> Store {
    let db = sled::Config::new().temporary(true).open().unwrap();
    Store::new(db.open_tree("emails").unwrap())
}

#[test]
fn a_new_store_is_empty() {
    let store = empty_store();
    assert_eq!(store.len(), 0);
}

#[test]
fn put_then_get_returns_the_content() {
    let mut store = empty_store();
    assert!(store.put(&[7, 7, 7], "hello world").is_ok());
    assert_eq!(store.get(&[7, 7, 7]), Ok("hello world".to_string()));
    assert_eq!(store.len(), 1);
}

#[test]
fn get_of_an_unknown_key_is_missing() {
    let mut store = empty_store();
    assert!(store.put(&[1], "one").is_ok());
    assert_eq!(store.get(&[2]), Err(FetchError::Missing));
    assert_eq!(store.get(&[]), Err(FetchError::Missing));
}

#[test]
fn put_under_the_same_key_replaces_the_content() {
    let mut store = empty_store();
    assert!(store.put(&[1], "first").is_ok());
    assert!(store.put(&[1], "second").is_ok());
    assert_eq!(store.get(&[1]), Ok("second".to_string()));
    assert_eq!(store.len(), 1);
}

#[test]
fn len_counts_the_keys() {
    let mut store = empty_store();
    assert!(store.put(&[1], "a").is_ok());
    assert!(store.put(&[2], "b").is_ok());
    assert!(store.put(&[1, 2], "c").is_ok());
    assert_eq!(store.len(), 3);
}

#[test]
fn empty_content_is_stored_as_such() {
    let mut store = empty_store();
    assert!(store.put(&[9], "").is_ok());
    assert_eq!(store.get(&[9]), Ok(String::new()));
}

#[test]
fn content_beyond_ascii_comes_back_unchanged() {
    let mut store = empty_store();
    let content = "gr\u{fc}\u{df}e \u{2014} \u{1f600} done";
    assert!(store.put(&[0, 255], content).is_ok());
    assert_eq!(store.get(&[0, 255]), Ok(content.to_string()));
}

#[test]
fn a_store_sees_what_the_tree_already_holds() {
    let db = sled::Config::new().temporary(true).open().unwrap();
    let tree = db.open_tree("emails").unwrap();
    tree.insert([4u8, 2u8], "kept".as_bytes()).unwrap();
    let store = Store::new(tree);
    assert_eq!(store.len(), 1);
    assert_eq!(store.get(&[4, 2]), Ok("kept".to_string()));
}

#[test]
fn decode_content_reads_utf8() {
    assert_eq!(decode_content("hello world".as_bytes()), "hello world");
    assert_eq!(decode_content(&[]), "");
    assert_eq!(decode_content(&[0xe2, 0x82, 0xac]), "\u{20ac}");
}

#[test]
fn decode_content_marks_bytes_that_are_no_text() {
    assert_eq!(decode_content(&[0xff, 0xfe]), "ENCODING ERROR");
    assert_eq!(decode_content(&[b'a', 0x80]), "ENCODING ERROR");
    assert_eq!(decode_content(&[0xe2, 0x82]), "ENCODING ERROR");
}

#[test]
fn content_from_a_found_value_is_its_text() {
    assert_eq!(content_from(Ok(Some(vec![b'h', b'i']))), Ok("hi".to_string()));
    assert_eq!(content_from(Ok(Some(vec![0xc0]))), Ok("ENCODING ERROR".to_string()));
}

#[test]
fn content_from_no_value_is_missing() {
    assert_eq!(content_from(Ok(None)), Err(FetchError::Missing));
}

#[test]
fn content_from_a_store_failure_is_unavailable() {
    let failure = sled::Error::Unsupported("closed".to_string());
    assert_eq!(content_from(Err(failure)), Err(FetchError::Unavailable));
}

#[test]
fn a_stored_value_that_is_no_text_is_marked() {
    let db = sled::Config::new().temporary(true).open().unwrap();
    let tree = db.open_tree("emails").unwrap();
    tree.insert([1u8], vec![0xffu8, 0x00]).unwrap();
    let store = Store::new(tree);
    assert_eq!(store.get(&[1]), Ok("ENCODING ERROR".to_string()));
}

#[test]
fn write_outcome_of_a_write_that_was_taken_is_done() {
    assert_eq!(write_outcome(Ok(None)), Ok(()));
    assert_eq!(write_outcome(Ok(Some(vec![1, 2, 3]))), Ok(()));
    assert_eq!(write_outcome(Ok(Some(Vec::new()))), Ok(()));
}

#[test]
fn write_outcome_passes_the_failure_of_the_store_on() {
    let failure = sled::Error::Unsupported("closed".to_string());
    assert_eq!(write_outcome(Err(failure.clone())), Err(failure));
    let gone = sled::Error::ReportableBug("gone".to_string());
    assert_eq!(write_outcome(Err(gone.clone())), Err(gone));
}

#[test]
fn put_reports_the_first_write_and_a_later_one_alike() {
    let mut store = empty_store();
    assert_eq!(store.put(&[5], "first"), Ok(()));
    assert_eq!(store.put(&[5], "first"), Ok(()));
    assert_eq!(store.put(&[5], "other"), Ok(()));
    assert_eq!(store.get(&[5]), Ok("other".to_string()));
    assert_eq!(store.len(), 1);
}
