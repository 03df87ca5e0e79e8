use searxkcd::item::Comic;
use searxkcd::search::{get_results, matches_any};

fn comic(id: u64, title: &str, alt: &str, transcript: &str) -> Comic {
    Comic::new(id, title.to_string(), alt.to_string(), format!("https://img/{}.png", id), transcript.to_string())
}

fn index() -> Vec<Comic> {
    vec![comic(1, "Loop", "", "infinite loop"), comic(2, "Cat", "", "a cat sleeps")]
}

fn ids(results: &Vec<Comic>) -> Vec<u64> {
    results.iter().map(|c| c.id()).collect()
}

fn chars(s: &str) -> Vec<char> {
    s.chars().collect()
}

#[test]
fn one_word_finds_the_comic_that_holds_it() {
    let results = get_results(&index(), "loop");
    assert_eq!(results, vec![comic(1, "Loop", "", "infinite loop")]);
}

#[test]
fn either_word_suffices() {
    let results = get_results(&index(), "cat infinite");
    assert_eq!(ids(&results), vec![1, 2]);
    assert_eq!(results, index());
}

#[test]
fn a_word_that_no_comic_holds_finds_nothing() {
    assert_eq!(get_results(&index(), "dog"), vec![]);
}

#[test]
fn the_case_of_the_query_does_not_matter() {
    assert_eq!(ids(&get_results(&index(), "CAT")), vec![2]);
    assert_eq!(ids(&get_results(&index(), "LoOp")), vec![1]);
}

#[test]
fn the_case_of_the_text_does_not_matter() {
    let index = vec![comic(5, "SHOUTING", "Quiet", "MiXeD")];
    assert_eq!(ids(&get_results(&index, "shouting")), vec![5]);
    assert_eq!(ids(&get_results(&index, "QUIET")), vec![5]);
    assert_eq!(ids(&get_results(&index, "mixed")), vec![5]);
}

#[test]
fn a_query_without_words_finds_nothing() {
    assert_eq!(get_results(&index(), ""), vec![]);
    assert_eq!(get_results(&index(), "   \t\n"), vec![]);
}

#[test]
fn an_empty_index_answers_nothing() {
    assert_eq!(get_results(&vec![], "loop"), vec![]);
}

#[test]
fn title_alt_text_and_transcript_are_all_searched() {
    let index = vec![
        comic(1, "alpha", "", ""),
        comic(2, "", "alpha", ""),
        comic(3, "", "", "alpha"),
        comic(4, "beta", "beta", "beta"),
    ];
    assert_eq!(ids(&get_results(&index, "alpha")), vec![1, 2, 3]);
}

#[test]
fn the_image_address_is_not_searched() {
    let index = vec![comic(1, "a", "b", "c")];
    assert_eq!(get_results(&index, "img"), vec![]);
    assert_eq!(get_results(&index, "png"), vec![]);
}

#[test]
fn results_keep_the_order_of_the_index() {
    let index = vec![comic(9, "x y", "", ""), comic(3, "y", "", ""), comic(7, "x", "", ""), comic(1, "z", "", "")];
    assert_eq!(ids(&get_results(&index, "x")), vec![9, 7]);
    assert_eq!(ids(&get_results(&index, "y x")), vec![9, 3, 7]);
    assert_eq!(ids(&get_results(&index, "z y")), vec![9, 3, 1]);
}

#[test]
fn a_comic_that_holds_several_words_is_found_once() {
    let results = get_results(&index(), "loop infinite Loop");
    assert_eq!(ids(&results), vec![1]);
}

#[test]
fn a_word_is_found_inside_longer_words() {
    let index = vec![comic(1, "Concatenate", "", "")];
    assert_eq!(ids(&get_results(&index, "cat")), vec![1]);
}

#[test]
fn a_word_may_span_two_parts_of_the_blob() {
    let index = vec![comic(1, "ab", "cd", "ef")];
    assert_eq!(ids(&get_results(&index, "bc")), vec![1]);
    assert_eq!(ids(&get_results(&index, "def")), vec![1]);
    assert_eq!(get_results(&index, "ac"), vec![]);
}

#[test]
fn letters_beyond_ascii_are_folded_too() {
    let index = vec![comic(1, "ÉCOLE", "", "Straße")];
    assert_eq!(ids(&get_results(&index, "école")), vec![1]);
    assert_eq!(get_results(&index, "STRASSE"), vec![]);
    assert_eq!(ids(&get_results(&index, "straße")), vec![1]);
}

#[test]
fn one_of_several_needles_is_enough() {
    assert!(matches_any(&chars("infinite loop"), &vec![chars("dog"), chars("loop")]));
    assert!(matches_any(&chars("infinite loop"), &vec![chars("inf")]));
    assert!(!matches_any(&chars("infinite loop"), &vec![chars("dog"), chars("cat")]));
    assert!(!matches_any(&chars("infinite loop"), &vec![]));
    assert!(!matches_any(&chars(""), &vec![chars("a")]));
}
