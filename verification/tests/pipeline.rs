use searxkcd::error::IndexError;
use searxkcd::item::Comic;
use searxkcd::remote::{upper_bound, ItemFetch, Progress, Reply, Request};
use searxkcd::search::get_results;
use searxkcd::store::{decode_pending, encode_pending};
use searxkcd::sync::{Action, Event, Synchronizer};

/// A remote side that serves what it was given, address by address, and
/// counts how often each address is asked for.
struct Remote {
    pages: Vec<(String, String)>,
    asked: Vec<String>,
}

impl Remote {
    fn new() -> Remote {
        Remote { pages: vec![], asked: vec![] }
    }

    fn serve(&mut self, request: Request, body: &str) {
        self.pages.push((request.url(), body.to_string()));
    }

    fn serve_comic(&mut self, id: u64, title: &str, transcript: &str) {
        let info = format!(
            "{{\"num\": {}, \"title\": \"{}\", \"alt\": \"alt of {}\", \"img\": \"https://imgs/{}.png\"}}",
            id, title, id, id
        );
        let page = format!("<h2 id=\"Transcript\">{}<span id=\"Discussion\">", transcript);
        self.serve(Request::Info(id), &info);
        self.serve(Request::Page(id), &page);
    }

    fn get(&mut self, request: Request) -> Reply {
        let url = request.url();
        self.asked.push(url.clone());
        match self.pages.iter().find(|(address, _)| *address == url) {
            Some((_, body)) => Reply::Body(body.clone()),
            None => Reply::Failed,
        }
    }

    fn count(&self, request: Request) -> usize {
        let url = request.url();
        self.asked.iter().filter(|address| **address == url).count()
    }
}

/// The two files of the index, as texts. The comics are kept as they are:
/// writing them down is not the library's part.
struct Disk {
    snapshot: Option<Vec<Comic>>,
    pending: String,
    writes: usize,
}

fn get_comic(remote: &mut Remote, id: u64) -> Result<Comic, IndexError> {
    let mut fetch = ItemFetch::start(id);
    loop {
        let reply = remote.get(fetch.request());
        match fetch.advance(reply) {
            Progress::Next(next) => fetch = next,
            Progress::Done(outcome) => return outcome,
        }
    }
}

fn update_index(remote: &mut Remote, disk: &mut Disk) -> Result<Vec<Comic>, IndexError> {
    let mut sync = Synchronizer::start();
    let mut action = sync.awaited();
    loop {
        let event = match action {
            Action::Load => match (&disk.snapshot, decode_pending(&disk.pending)) {
                (Some(snapshot), Ok(pending)) => Event::Loaded { snapshot: snapshot.clone(), pending },
                _ => Event::Unreadable,
            },
            Action::Resolve(id) => Event::Resolved(get_comic(remote, id)),
            Action::FetchLatest => Event::UpperBound(upper_bound(&remote.get(Request::Latest))),
            Action::Persist => {
                disk.snapshot = Some(sync.snapshot().clone());
                disk.pending = encode_pending(sync.pending());
                disk.writes += 1;
                Event::Saved
            }
            Action::Finish => return Ok(sync.into_snapshot()),
            Action::Abort(error) => return Err(error),
        };
        (sync, action) = sync.step(event);
    }
}

fn ids(comics: &Vec<Comic>) -> Vec<u64> {
    comics.iter().map(|c| c.id()).collect()
}

fn archive() -> Remote {
    let mut remote = Remote::new();
    remote.serve(Request::Latest, "{\"num\": 4, \"title\": \"Latest\"}");
    remote.serve_comic(1, "Loop", "infinite loop");
    remote.serve_comic(2, "Cat", "a cat sleeps");
    remote.serve(Request::Info(3), "<html>404 Not Found</html>");
    remote.serve(Request::Info(4), "{\"num\": 4, \"title\": \"Dog\", \"alt\": \"\", \"img\": \"i\"}");
    remote.serve(Request::Page(4), "a page without anchors");
    remote
}

#[test]
fn a_first_pass_over_a_small_archive() {
    let mut remote = archive();
    let mut disk = Disk { snapshot: Some(vec![]), pending: "[]".to_string(), writes: 0 };
    let index = update_index(&mut remote, &mut disk).unwrap();
    assert_eq!(ids(&index), vec![1, 2, 4]);
    assert_eq!(index[0].title(), "Loop");
    assert_eq!(index[0].alt(), "alt of 1");
    assert_eq!(index[0].img(), "https://imgs/1.png");
    assert_eq!(index[0].transcript(), ">infinite loop<span ");
    assert_eq!(index[2].transcript(), "");
    assert_eq!(disk.pending, "[3]");
    assert_eq!(disk.snapshot, Some(index));
    assert_eq!(disk.writes, 1);
}

#[test]
fn a_comic_that_is_not_served_costs_one_request_per_pass() {
    let mut remote = archive();
    let mut disk = Disk { snapshot: Some(vec![]), pending: "[]".to_string(), writes: 0 };
    update_index(&mut remote, &mut disk).unwrap();
    assert_eq!(remote.count(Request::Info(3)), 1);
    update_index(&mut remote, &mut disk).unwrap();
    assert_eq!(remote.count(Request::Info(3)), 2);
    assert_eq!(remote.count(Request::Page(3)), 0);
    assert_eq!(disk.pending, "[3]");
}

#[test]
fn a_comic_that_cannot_be_reached_costs_three_requests_per_pass() {
    let mut remote = Remote::new();
    remote.serve(Request::Latest, "{\"num\": 2}");
    remote.serve_comic(1, "One", "first");
    let mut disk = Disk { snapshot: Some(vec![]), pending: "[]".to_string(), writes: 0 };
    let index = update_index(&mut remote, &mut disk).unwrap();
    assert_eq!(ids(&index), vec![1]);
    assert_eq!(disk.pending, "[2]");
    assert_eq!(remote.count(Request::Info(2)), 3);
    assert_eq!(remote.count(Request::Info(1)), 1);
    assert_eq!(remote.count(Request::Page(1)), 1);
    update_index(&mut remote, &mut disk).unwrap();
    assert_eq!(remote.count(Request::Info(2)), 6);
    assert_eq!(remote.count(Request::Info(1)), 1);
}

#[test]
fn a_comic_that_arrives_later_is_repaired() {
    let mut remote = archive();
    let mut disk = Disk { snapshot: Some(vec![]), pending: "[]".to_string(), writes: 0 };
    update_index(&mut remote, &mut disk).unwrap();
    remote.pages.retain(|(address, _)| *address != Request::Info(3).url());
    remote.serve_comic(3, "Bird", "a bird sings");
    let index = update_index(&mut remote, &mut disk).unwrap();
    assert_eq!(ids(&index), vec![1, 2, 4, 3]);
    assert_eq!(disk.pending, "[]");
}

#[test]
fn two_passes_in_a_row_give_the_same_index() {
    let mut remote = archive();
    let mut disk = Disk { snapshot: Some(vec![]), pending: "[]".to_string(), writes: 0 };
    let first = update_index(&mut remote, &mut disk).unwrap();
    let stored = disk.pending.clone();
    let second = update_index(&mut remote, &mut disk).unwrap();
    assert_eq!(first, second);
    assert_eq!(disk.pending, stored);
}

#[test]
fn a_corrupt_file_is_reported_and_left_as_it_is() {
    let mut remote = archive();
    let mut disk = Disk { snapshot: Some(vec![]), pending: "[1, 2".to_string(), writes: 0 };
    assert_eq!(update_index(&mut remote, &mut disk), Err(IndexError::StoreCorrupt));
    assert_eq!(disk.pending, "[1, 2");
    assert_eq!(disk.snapshot, Some(vec![]));
    assert_eq!(disk.writes, 0);
    assert_eq!(remote.asked, Vec::<String>::new());
    let mut disk = Disk { snapshot: None, pending: "[]".to_string(), writes: 0 };
    assert_eq!(update_index(&mut remote, &mut disk), Err(IndexError::StoreCorrupt));
    assert_eq!(disk.writes, 0);
}

#[test]
fn an_archive_out_of_reach_leaves_the_index_as_it_is() {
    let mut remote = archive();
    let mut disk = Disk { snapshot: Some(vec![]), pending: "[]".to_string(), writes: 0 };
    let before = update_index(&mut remote, &mut disk).unwrap();
    let mut nothing = Remote::new();
    let after = update_index(&mut nothing, &mut disk).unwrap();
    assert_eq!(after, before);
    assert_eq!(disk.pending, "[3]");
    assert_eq!(nothing.count(Request::Latest), 1);
    assert_eq!(nothing.count(Request::Info(3)), 3);
}

#[test]
fn searching_what_was_fetched() {
    let mut remote = archive();
    let mut disk = Disk { snapshot: Some(vec![]), pending: "[]".to_string(), writes: 0 };
    let index = update_index(&mut remote, &mut disk).unwrap();
    assert_eq!(ids(&get_results(&index, "loop")), vec![1]);
    assert_eq!(ids(&get_results(&index, "cat infinite")), vec![1, 2]);
    assert_eq!(ids(&get_results(&index, "CAT")), vec![2]);
    assert_eq!(ids(&get_results(&index, "DOG sleeps")), vec![2, 4]);
    assert_eq!(ids(&get_results(&index, "bird")), Vec::<u64>::new());
    assert_eq!(ids(&get_results(&index, "alt")), vec![1, 2]);
}
