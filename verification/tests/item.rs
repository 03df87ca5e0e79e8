use searxkcd::item::Comic;

fn sample() -> Comic {
    Comic::new(
        327,
        "Exploits of a Mom".to_string(),
        "Her daughter is named Help".to_string(),
        "https://imgs.xkcd.com/comics/exploits_of_a_mom.png".to_string(),
        "Hi, this is your son's school.".to_string(),
    )
}

#[test]
fn a_comic_keeps_its_parts() {
    let comic = sample();
    assert_eq!(comic.id(), 327);
    assert_eq!(comic.title(), "Exploits of a Mom");
    assert_eq!(comic.alt(), "Her daughter is named Help");
    assert_eq!(comic.img(), "https://imgs.xkcd.com/comics/exploits_of_a_mom.png");
    assert_eq!(comic.transcript(), "Hi, this is your son's school.");
}

#[test]
fn the_blob_joins_title_alt_and_transcript() {
    let comic = Comic::new(1, "Ti".to_string(), "Al".to_string(), "Im".to_string(), "Tr".to_string());
    assert_eq!(comic.blob(), "TiAlTr");
    let bare = Comic::new(2, String::new(), String::new(), "x".to_string(), String::new());
    assert_eq!(bare.blob(), "");
}

#[test]
fn a_clone_equals_the_original() {
    let comic = sample();
    let copy = comic.clone();
    assert_eq!(copy, comic);
}

#[test]
fn with_transcript_changes_the_transcript_only() {
    let comic = sample().with_transcript("new text".to_string());
    assert_eq!(comic.transcript(), "new text");
    assert_eq!(comic.id(), 327);
    assert_eq!(comic.title(), "Exploits of a Mom");
    assert_eq!(comic.alt(), "Her daughter is named Help");
    assert_eq!(comic.img(), "https://imgs.xkcd.com/comics/exploits_of_a_mom.png");
    assert_ne!(comic, sample());
}
