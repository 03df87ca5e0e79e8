use searxkcd::error::IndexError;

#[test]
fn only_failures_of_the_store_end_a_pass() {
    assert!(IndexError::StoreCorrupt.fatal());
    assert!(IndexError::StoreUnwritable.fatal());
    assert!(!IndexError::Transport.fatal());
    assert!(!IndexError::Parse.fatal());
    assert!(!IndexError::FetchFailed(404).fatal());
}

#[test]
fn errors_compare_by_kind_and_identifier() {
    assert_eq!(IndexError::FetchFailed(1), IndexError::FetchFailed(1));
    assert_ne!(IndexError::FetchFailed(1), IndexError::FetchFailed(2));
    assert_ne!(IndexError::Transport, IndexError::Parse);
}

#[test]
fn every_failure_has_its_words() {
    assert_eq!(IndexError::Transport.message(), "Error: failed retrieving page");
    assert_eq!(IndexError::Parse.message(), "Error: failed deserializing comic");
    assert_eq!(IndexError::FetchFailed(404).message(), "Error: failed retrieving comic");
    assert_eq!(IndexError::StoreCorrupt.message(), "Error: failed to read index file");
    assert_eq!(IndexError::StoreUnwritable.message(), "Error: failed to create index file");
}
