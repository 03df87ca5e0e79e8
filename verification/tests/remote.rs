use searxkcd::error::IndexError;
use searxkcd::item::Comic;
use searxkcd::remote::{
    comic_from_members, decode_comic, decode_latest, latest_from_member, upper_bound, ItemFetch,
    Progress, Reply, Request, MAX_ATTEMPTS,
};

const INFO: &str = "{\"month\": \"7\", \"num\": 614, \"link\": \"\", \"year\": \"2009\", \
    \"news\": \"\", \"safe_title\": \"Woodpecker\", \"transcript\": \"\", \
    \"alt\": \"If you don't have an extension cord I can get that too.\", \
    \"img\": \"https://imgs.xkcd.com/comics/woodpecker.png\", \"title\": \"Woodpecker\", \"day\": \"24\"}";

fn body(text: &str) -> Reply {
    Reply::Body(text.to_string())
}

fn next(progress: Progress) -> ItemFetch {
    match progress {
        Progress::Next(fetch) => fetch,
        Progress::Done(outcome) => panic!("the fetching ended with {:?}", outcome),
    }
}

fn done(progress: Progress) -> Result<Comic, IndexError> {
    match progress {
        Progress::Next(fetch) => panic!("another request is asked for: {:?}", fetch.request()),
        Progress::Done(outcome) => outcome,
    }
}

#[test]
fn addresses_of_the_requests() {
    assert_eq!(Request::Info(614).url(), "https://xkcd.com/614/info.0.json");
    assert_eq!(Request::Page(614).url(), "https://www.explainxkcd.com/wiki/index.php/614");
    assert_eq!(Request::Latest.url(), "https://xkcd.com/info.0.json");
    assert_eq!(Request::Info(1).url(), "https://xkcd.com/1/info.0.json");
    assert_eq!(Request::Page(0).url(), "https://www.explainxkcd.com/wiki/index.php/0");
}

#[test]
fn a_metadata_reply_makes_a_comic_without_transcript() {
    let comic = decode_comic(INFO).unwrap();
    assert_eq!(comic.id(), 614);
    assert_eq!(comic.title(), "Woodpecker");
    assert_eq!(comic.alt(), "If you don't have an extension cord I can get that too.");
    assert_eq!(comic.img(), "https://imgs.xkcd.com/comics/woodpecker.png");
    assert_eq!(comic.transcript(), "");
}

#[test]
fn a_reply_that_is_no_json_is_a_parse_error() {
    assert_eq!(decode_comic("<html>404 Not Found</html>"), Err(IndexError::Parse));
    assert_eq!(decode_comic(""), Err(IndexError::Parse));
    assert_eq!(decode_comic("{\"num\": 1"), Err(IndexError::Parse));
}

#[test]
fn a_reply_that_lacks_a_member_is_a_parse_error() {
    assert_eq!(
        decode_comic("{\"num\": 1, \"title\": \"t\", \"alt\": \"a\"}"),
        Err(IndexError::Parse)
    );
    assert_eq!(
        decode_comic("{\"num\": 1, \"title\": \"t\", \"img\": \"i\"}"),
        Err(IndexError::Parse)
    );
    assert_eq!(
        decode_comic("{\"num\": 1, \"alt\": \"a\", \"img\": \"i\"}"),
        Err(IndexError::Parse)
    );
    assert_eq!(
        decode_comic("{\"title\": \"t\", \"alt\": \"a\", \"img\": \"i\"}"),
        Err(IndexError::Parse)
    );
    assert_eq!(decode_comic("[1, 2, 3]"), Err(IndexError::Parse));
    assert_eq!(decode_comic("null"), Err(IndexError::Parse));
}

#[test]
fn a_member_of_the_wrong_kind_is_a_parse_error() {
    assert_eq!(
        decode_comic("{\"num\": \"1\", \"title\": \"t\", \"alt\": \"a\", \"img\": \"i\"}"),
        Err(IndexError::Parse)
    );
    assert_eq!(
        decode_comic("{\"num\": -1, \"title\": \"t\", \"alt\": \"a\", \"img\": \"i\"}"),
        Err(IndexError::Parse)
    );
    assert_eq!(
        decode_comic("{\"num\": 1.5, \"title\": \"t\", \"alt\": \"a\", \"img\": \"i\"}"),
        Err(IndexError::Parse)
    );
    assert_eq!(
        decode_comic("{\"num\": 1, \"title\": 2, \"alt\": \"a\", \"img\": \"i\"}"),
        Err(IndexError::Parse)
    );
}

#[test]
fn a_minimal_reply_is_decoded() {
    let comic =
        decode_comic("{\"num\": 1, \"title\": \"t\", \"alt\": \"a\", \"img\": \"i\"}").unwrap();
    assert_eq!(comic, Comic::new(1, "t".to_string(), "a".to_string(), "i".to_string(), String::new()));
}

#[test]
fn escapes_in_a_reply_are_resolved() {
    let comic = decode_comic(
        "{\"num\": 2, \"title\": \"a \\\"b\\\" \\u00e9\", \"alt\": \"line\\nbreak\", \"img\": \"i\"}",
    )
    .unwrap();
    assert_eq!(comic.title(), "a \"b\" é");
    assert_eq!(comic.alt(), "line\nbreak");
}

#[test]
fn members_make_a_comic_only_when_all_are_there() {
    let t = || Some("t".to_string());
    assert_eq!(
        comic_from_members(Some(9), t(), t(), t()),
        Ok(Comic::new(9, "t".to_string(), "t".to_string(), "t".to_string(), String::new()))
    );
    assert_eq!(comic_from_members(None, t(), t(), t()), Err(IndexError::Parse));
    assert_eq!(comic_from_members(Some(9), None, t(), t()), Err(IndexError::Parse));
    assert_eq!(comic_from_members(Some(9), t(), None, t()), Err(IndexError::Parse));
    assert_eq!(comic_from_members(Some(9), t(), t(), None), Err(IndexError::Parse));
    assert_eq!(comic_from_members(None, None, None, None), Err(IndexError::Parse));
}

#[test]
fn the_latest_identifier_is_read_from_the_reply() {
    assert_eq!(decode_latest(INFO), Ok(614));
    assert_eq!(decode_latest("{\"num\": 3000}"), Ok(3000));
    assert_eq!(decode_latest("{\"num\": 18446744073709551615}"), Ok(u64::MAX));
    assert_eq!(decode_latest("{\"number\": 3000}"), Err(IndexError::Parse));
    assert_eq!(decode_latest("{\"num\": 18446744073709551616}"), Err(IndexError::Parse));
    assert_eq!(decode_latest("not json"), Err(IndexError::Parse));
    assert_eq!(latest_from_member(Some(5)), Ok(5));
    assert_eq!(latest_from_member(None), Err(IndexError::Parse));
}

#[test]
fn the_upper_bound_is_asked_for_once() {
    assert_eq!(upper_bound(&body("{\"num\": 12}")), Ok(12));
    assert_eq!(upper_bound(&body("{}")), Err(IndexError::Parse));
    assert_eq!(upper_bound(&Reply::Failed), Err(IndexError::Transport));
}

#[test]
fn fetching_begins_with_the_metadata() {
    let fetch = ItemFetch::start(614);
    assert_eq!(fetch.request(), Request::Info(614));
}

#[test]
fn three_failures_give_a_comic_up() {
    assert_eq!(MAX_ATTEMPTS, 3);
    let mut requests = vec![];
    let mut fetch = ItemFetch::start(404);
    requests.push(fetch.request());
    fetch = next(fetch.advance(Reply::Failed));
    requests.push(fetch.request());
    fetch = next(fetch.advance(Reply::Failed));
    requests.push(fetch.request());
    let outcome = done(fetch.advance(Reply::Failed));
    assert_eq!(outcome, Err(IndexError::FetchFailed(404)));
    assert_eq!(requests, vec![Request::Info(404), Request::Info(404), Request::Info(404)]);
}

#[test]
fn a_request_that_gets_through_ends_the_retries() {
    let mut fetch = ItemFetch::start(614);
    fetch = next(fetch.advance(Reply::Failed));
    fetch = next(fetch.advance(Reply::Failed));
    assert_eq!(fetch.request(), Request::Info(614));
    fetch = next(fetch.advance(body(INFO)));
    assert_eq!(fetch.request(), Request::Page(614));
    let comic = done(fetch.advance(body("id=\"Transcript\"words id=\"Discussion\""))).unwrap();
    assert_eq!(comic.id(), 614);
    assert_eq!(comic.title(), "Woodpecker");
    assert_eq!(comic.transcript(), "words ");
}

#[test]
fn a_reply_that_cannot_be_decoded_is_not_asked_for_again() {
    let fetch = ItemFetch::start(404);
    let outcome = done(fetch.advance(body("<html>not found</html>")));
    assert_eq!(outcome, Err(IndexError::Parse));
}

#[test]
fn the_page_is_asked_for_under_the_identifier_of_the_metadata() {
    let fetch = ItemFetch::start(7);
    let fetch = next(fetch.advance(body(INFO)));
    assert_eq!(fetch.request(), Request::Page(614));
}

#[test]
fn a_page_that_does_not_arrive_fails_the_comic() {
    let fetch = next(ItemFetch::start(614).advance(body(INFO)));
    assert_eq!(done(fetch.advance(Reply::Failed)), Err(IndexError::Transport));
}

#[test]
fn a_page_without_anchors_completes_the_comic() {
    let fetch = next(ItemFetch::start(614).advance(body(INFO)));
    let comic = done(fetch.advance(body("<html>no anchors here</html>"))).unwrap();
    assert_eq!(comic.transcript(), "");
    assert_eq!(comic.id(), 614);
    let fetch = next(ItemFetch::start(614).advance(body(INFO)));
    let comic = done(fetch.advance(body("only id=\"Transcript\" here"))).unwrap();
    assert_eq!(comic.transcript(), "");
    let fetch = next(ItemFetch::start(614).advance(body(INFO)));
    let comic = done(fetch.advance(body("only id=\"Discussion\" here"))).unwrap();
    assert_eq!(comic.transcript(), "");
}

#[test]
fn no_more_than_four_requests_are_made() {
    let mut count = 1;
    let mut fetch = ItemFetch::start(1);
    let replies = vec![Reply::Failed, Reply::Failed, body(INFO), body("page")];
    let mut outcome = None;
    for reply in replies {
        match fetch.advance(reply) {
            Progress::Next(after) => {
                fetch = after;
                count += 1;
            }
            Progress::Done(result) => {
                outcome = Some(result);
                break;
            }
        }
    }
    assert_eq!(count, 4);
    assert!(matches!(outcome, Some(Ok(_))));
}
