use searxkcd::transcript::{extract_transcript, BEGIN_MARKER, END_MARKER};

#[test]
fn the_markers_are_the_two_anchors() {
    assert_eq!(BEGIN_MARKER, "id=\"Transcript\"");
    assert_eq!(END_MARKER, "id=\"Discussion\"");
}

#[test]
fn the_transcript_lies_between_the_anchors() {
    let page = "<h2 id=\"Transcript\">Transcript</h2><dl><dd>Hello</dd></dl><h2 id=\"Discussion\">";
    assert_eq!(extract_transcript(page), ">Transcript</h2><dl><dd>Hello</dd></dl><h2 ");
}

#[test]
fn the_opening_anchor_is_no_part_of_the_transcript() {
    let page = "id=\"Transcript\"xid=\"Discussion\"";
    assert_eq!(extract_transcript(page), "x");
    let adjacent = "id=\"Transcript\"id=\"Discussion\"";
    assert_eq!(extract_transcript(adjacent), "");
}

#[test]
fn a_page_without_the_opening_anchor_has_no_transcript() {
    assert_eq!(extract_transcript("<p>nothing</p> id=\"Discussion\""), "");
}

#[test]
fn a_page_without_the_closing_anchor_has_no_transcript() {
    assert_eq!(extract_transcript("id=\"Transcript\" some text"), "");
}

#[test]
fn a_page_without_anchors_has_no_transcript() {
    assert_eq!(extract_transcript(""), "");
    assert_eq!(extract_transcript("<html></html>"), "");
}

#[test]
fn anchors_in_the_wrong_order_give_no_transcript() {
    assert_eq!(extract_transcript("id=\"Discussion\" text id=\"Transcript\" more"), "");
}

#[test]
fn the_leftmost_anchors_count() {
    let page = "a id=\"Transcript\" b id=\"Transcript\" c id=\"Discussion\" d id=\"Discussion\" e";
    assert_eq!(extract_transcript(page), " b id=\"Transcript\" c ");
}

#[test]
fn a_transcript_may_hold_any_characters() {
    let page = "é✓ id=\"Transcript\"→ naïve café ✓ ←id=\"Discussion\" ü";
    assert_eq!(extract_transcript(page), "→ naïve café ✓ ←");
}
