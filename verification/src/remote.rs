//! The remote side: where to ask for a comic, how to read what comes back,
//! and how often to ask again.
//!
//! Fetching one comic takes up to four requests: its metadata, asked for up
//! to [`MAX_ATTEMPTS`] times while no request gets through, and then its
//! companion page, asked for once. [`ItemFetch`] decides after each reply
//! what happens next; the caller performs the requests.

use vstd::prelude::*;
use vstd::string::StringExecFns;
use crate::error::IndexError;
use crate::item::{Comic, ComicView};
use crate::json::{json_document, json_number, json_string, member_str, member_u64, parse_document};
use crate::text::{decimal, render_decimal};
use crate::transcript::{extract_transcript, transcript_of};

verus! {

/// Where the archive serves its metadata.
pub const ARCHIVE_URL: &'static str = "https://xkcd.com/";

/// The document that holds a comic's metadata, below the comic's own path or,
/// for the latest comic, below the archive's root.
pub const INFO_DOCUMENT: &'static str = "info.0.json";

/// Where the companion pages are served, one per comic.
pub const COMPANION_URL: &'static str = "https://www.explainxkcd.com/wiki/index.php/";

/// The member of the metadata that holds the comic's identifier.
pub const KEY_ID: &'static str = "num";

/// The member of the metadata that holds the comic's title.
pub const KEY_TITLE: &'static str = "title";

/// The member of the metadata that holds the comic's alt text.
pub const KEY_ALT: &'static str = "alt";

/// The member of the metadata that holds the address of the comic's image.
pub const KEY_IMAGE: &'static str = "img";

/// How often the metadata of one comic is asked for in one pass, at most.
pub const MAX_ATTEMPTS: u8 = 3;

/// Something to ask the remote side for.
#[derive(Clone, Copy, Debug, PartialEq, Eq, Structural)]
pub enum Request {
    /// The metadata of the comic with this identifier.
    Info(u64),
    /// The companion page of the comic with this identifier.
    Page(u64),
    /// The metadata of the comic published last.
    Latest,
}

impl Request {
    /// The address to fetch.
    pub open spec fn address(self) -> Seq<char> {
        match self {
            Request::Info(id) => ARCHIVE_URL@ + decimal(id as nat) + "/"@ + INFO_DOCUMENT@,
            Request::Page(id) => COMPANION_URL@ + decimal(id as nat),
            Request::Latest => ARCHIVE_URL@ + INFO_DOCUMENT@,
        }
    }

    /// The address to fetch.
    pub fn url(&self) -> (url: String)
        ensures
            url@ == self.address(),
    {
        match self {
            Request::Info(id) => {
                let mut url = ARCHIVE_URL.to_owned();
                url.append(render_decimal(*id).as_str());
                url.append("/");
                url.append(INFO_DOCUMENT);
                url
            },
            Request::Page(id) => {
                let mut url = COMPANION_URL.to_owned();
                url.append(render_decimal(*id).as_str());
                url
            },
            Request::Latest => {
                let mut url = ARCHIVE_URL.to_owned();
                url.append(INFO_DOCUMENT);
                url
            },
        }
    }
}

/// What came back for a request.
#[derive(Debug)]
pub enum Reply {
    /// The request got through, and this is the text that came back.
    Body(String),
    /// The request did not get through.
    Failed,
}

/// The mathematical value of a [`Reply`].
pub enum ReplyView {
    Body(Seq<char>),
    Failed,
}

impl View for Reply {
    type V = ReplyView;

    open spec fn view(&self) -> ReplyView {
        match self {
            Reply::Body(text) => ReplyView::Body(text@),
            Reply::Failed => ReplyView::Failed,
        }
    }
}

/// The result of fetching one comic, with the comic taken by its value.
pub open spec fn outcome_view(outcome: Result<Comic, IndexError>) -> Result<ComicView, IndexError> {
    match outcome {
        Ok(comic) => Ok(comic@),
        Err(error) => Err(error),
    }
}

/// The comic that the four members of a metadata document make up. All four
/// are needed. The transcript is left empty.
pub open spec fn comic_of_members(
    id: Option<u64>,
    title: Option<Seq<char>>,
    alt: Option<Seq<char>>,
    img: Option<Seq<char>>,
) -> Result<ComicView, IndexError> {
    if id is Some && title is Some && alt is Some && img is Some {
        Ok(
            ComicView {
                id: id->0,
                title: title->0,
                alt: alt->0,
                img: img->0,
                transcript: Seq::empty(),
            },
        )
    } else {
        Err(IndexError::Parse)
    }
}

/// The comic that a metadata reply describes: the reply must be a JSON
/// document with a number for the identifier and strings for title, alt text
/// and image address.
pub open spec fn comic_of_body(body: Seq<char>) -> Result<ComicView, IndexError> {
    match json_document(body) {
        Some(doc) => comic_of_members(
            json_number(doc, KEY_ID@),
            json_string(doc, KEY_TITLE@),
            json_string(doc, KEY_ALT@),
            json_string(doc, KEY_IMAGE@),
        ),
        None => Err(IndexError::Parse),
    }
}

/// The identifier that the reply for the latest comic carries.
pub open spec fn latest_of_member(id: Option<u64>) -> Result<u64, IndexError> {
    match id {
        Some(id) => Ok(id),
        None => Err(IndexError::Parse),
    }
}

/// The identifier of the comic published last, as a reply to
/// [`Request::Latest`] gives it.
pub open spec fn latest_of_body(body: Seq<char>) -> Result<u64, IndexError> {
    match json_document(body) {
        Some(doc) => latest_of_member(json_number(doc, KEY_ID@)),
        None => Err(IndexError::Parse),
    }
}

/// Makes a comic of the members read from a metadata document, or reports
/// that one is missing.
pub fn comic_from_members(
    id: Option<u64>,
    title: Option<String>,
    alt: Option<String>,
    img: Option<String>,
) -> (outcome: Result<Comic, IndexError>)
    ensures
        outcome_view(outcome) == comic_of_members(
            id,
            match title {
                Some(text) => Some(text@),
                None => None,
            },
            match alt {
                Some(text) => Some(text@),
                None => None,
            },
            match img {
                Some(text) => Some(text@),
                None => None,
            },
        ),
{
    match (id, title, alt, img) {
        (Some(id), Some(title), Some(alt), Some(img)) => Ok(
            Comic::new(id, title, alt, img, String::new()),
        ),
        _ => Err(IndexError::Parse),
    }
}

/// Reads a comic from a metadata reply. The transcript is left empty.
pub fn decode_comic(body: &str) -> (outcome: Result<Comic, IndexError>)
    ensures
        outcome_view(outcome) == comic_of_body(body@),
{
    match parse_document(body) {
        Ok(doc) => comic_from_members(
            member_u64(&doc, KEY_ID),
            member_str(&doc, KEY_TITLE),
            member_str(&doc, KEY_ALT),
            member_str(&doc, KEY_IMAGE),
        ),
        Err(_) => Err(IndexError::Parse),
    }
}

/// Reports the identifier read from the reply for the latest comic, or that
/// it is missing.
pub fn latest_from_member(id: Option<u64>) -> (latest: Result<u64, IndexError>)
    ensures
        latest == latest_of_member(id),
{
    match id {
        Some(id) => Ok(id),
        None => Err(IndexError::Parse),
    }
}

/// Reads the identifier of the comic published last from the reply to
/// [`Request::Latest`].
pub fn decode_latest(body: &str) -> (latest: Result<u64, IndexError>)
    ensures
        latest == latest_of_body(body@),
{
    match parse_document(body) {
        Ok(doc) => latest_from_member(member_u64(&doc, KEY_ID)),
        Err(_) => Err(IndexError::Parse),
    }
}

/// What the reply to [`Request::Latest`] says of the archive's extent.
pub open spec fn upper_bound_of(reply: ReplyView) -> Result<u64, IndexError> {
    match reply {
        ReplyView::Body(body) => latest_of_body(body),
        ReplyView::Failed => Err(IndexError::Transport),
    }
}

/// Reads the archive's extent from the reply to [`Request::Latest`]. That
/// request is made once: a failure is reported, not retried.
pub fn upper_bound(reply: &Reply) -> (bound: Result<u64, IndexError>)
    ensures
        bound == upper_bound_of(reply@),
{
    match reply {
        Reply::Body(body) => decode_latest(body.as_str()),
        Reply::Failed => Err(IndexError::Transport),
    }
}

/// How far the fetching of one comic has got.
pub enum FetchState {
    /// The metadata of comic `id` has been asked for `attempt` times, and the
    /// reply to the last of these requests is awaited.
    AwaitingInfo { id: u64, attempt: nat },
    /// The metadata has arrived and made `item`; its companion page has been
    /// asked for.
    AwaitingPage { item: ComicView },
}

/// Where the fetching of one comic stands after a reply.
pub enum ProgressView {
    /// Another request is to be made.
    Next(FetchState),
    /// The comic has been fetched, or given up for this pass.
    Done(Result<ComicView, IndexError>),
}

impl FetchState {
    /// The state in which the fetching of comic `id` begins.
    pub open spec fn start(id: u64) -> FetchState {
        FetchState::AwaitingInfo { id, attempt: 1 }
    }

    /// The request whose reply is awaited. The companion page is asked for
    /// under the identifier that the metadata carries.
    pub open spec fn request(self) -> Request {
        match self {
            FetchState::AwaitingInfo { id, .. } => Request::Info(id),
            FetchState::AwaitingPage { item } => Request::Page(item.id),
        }
    }

    /// What follows from a reply.
    ///
    /// While the metadata is awaited, a request that did not get through is
    /// repeated until [`MAX_ATTEMPTS`] requests have been made, and then the
    /// comic is given up with [`IndexError::FetchFailed`]. A reply that cannot be
    /// decoded ends the fetching at once. While the companion page is
    /// awaited, a request that did not get through ends the fetching with
    /// [`IndexError::Transport`]; any page that arrives completes the comic, with
    /// an empty transcript where the page holds none.
    pub open spec fn advance(self, reply: ReplyView) -> ProgressView {
        match self {
            FetchState::AwaitingInfo { id, attempt } => match reply {
                ReplyView::Failed => if attempt < MAX_ATTEMPTS {
                    ProgressView::Next(FetchState::AwaitingInfo { id, attempt: attempt + 1 })
                } else {
                    ProgressView::Done(Err(IndexError::FetchFailed(id)))
                },
                ReplyView::Body(body) => match comic_of_body(body) {
                    Ok(item) => ProgressView::Next(FetchState::AwaitingPage { item }),
                    Err(error) => ProgressView::Done(Err(error)),
                },
            },
            FetchState::AwaitingPage { item } => match reply {
                ReplyView::Failed => ProgressView::Done(Err(IndexError::Transport)),
                ReplyView::Body(page) => ProgressView::Done(
                    Ok(item.with_transcript(transcript_of(page))),
                ),
            },
        }
    }

    /// The requests that are made when the replies come as `replies` gives
    /// them, one per request, from this state on. The first is the one that
    /// is awaited in this state.
    pub open spec fn requests(self, replies: Seq<ReplyView>) -> Seq<Request>
        decreases replies.len(),
    {
        if replies.len() == 0 {
            seq![self.request()]
        } else {
            match self.advance(replies[0]) {
                ProgressView::Next(next) => seq![self.request()] + next.requests(
                    replies.drop_first(),
                ),
                ProgressView::Done(_) => seq![self.request()],
            }
        }
    }

    /// The result of the fetching when the replies come as `replies` gives
    /// them, or `None` where more replies are needed.
    pub open spec fn outcome(self, replies: Seq<ReplyView>) -> Option<Result<ComicView, IndexError>>
        decreases replies.len(),
    {
        if replies.len() == 0 {
            None
        } else {
            match self.advance(replies[0]) {
                ProgressView::Next(next) => next.outcome(replies.drop_first()),
                ProgressView::Done(outcome) => Some(outcome),
            }
        }
    }
}

/// The fetching of one comic, between two requests.
#[derive(Debug)]
pub struct ItemFetch {
    id: u64,
    attempt: u8,
    item: Option<Comic>,
}

impl View for ItemFetch {
    type V = FetchState;

    closed spec fn view(&self) -> FetchState {
        match self.item {
            None => FetchState::AwaitingInfo { id: self.id, attempt: self.attempt as nat },
            Some(item) => FetchState::AwaitingPage { item: item@ },
        }
    }
}

/// Where the fetching of one comic stands after a reply.
#[derive(Debug)]
pub enum Progress {
    /// Another request is to be made: the one that this state awaits.
    Next(ItemFetch),
    /// The comic has been fetched, or given up for this pass.
    Done(Result<Comic, IndexError>),
}

impl View for Progress {
    type V = ProgressView;

    open spec fn view(&self) -> ProgressView {
        match self {
            Progress::Next(fetch) => ProgressView::Next(fetch@),
            Progress::Done(outcome) => ProgressView::Done(outcome_view(*outcome)),
        }
    }
}

impl ItemFetch {
    #[verifier::type_invariant]
    spec fn attempts_counted(self) -> bool {
        1 <= self.attempt <= MAX_ATTEMPTS
    }

    /// Begins to fetch the comic `id`. The first request is to be made now.
    pub fn start(id: u64) -> (fetch: ItemFetch)
        ensures
            fetch@ == FetchState::start(id),
    {
        ItemFetch { id, attempt: 1, item: None }
    }

    /// The request to make now.
    pub fn request(&self) -> (request: Request)
        ensures
            request == self@.request(),
    {
        match &self.item {
            None => Request::Info(self.id),
            Some(item) => Request::Page(item.id()),
        }
    }

    /// Takes the reply to the request made last and decides what follows.
    pub fn advance(self, reply: Reply) -> (progress: Progress)
        ensures
            progress@ == self@.advance(reply@),
    {
        proof {
            use_type_invariant(&self);
        }
        match self.item {
            None => match reply {
                Reply::Failed => if self.attempt < MAX_ATTEMPTS {
                    Progress::Next(ItemFetch { id: self.id, attempt: self.attempt + 1, item: None })
                } else {
                    Progress::Done(Err(IndexError::FetchFailed(self.id)))
                },
                Reply::Body(body) => match decode_comic(body.as_str()) {
                    Ok(item) => Progress::Next(
                        ItemFetch { id: self.id, attempt: self.attempt, item: Some(item) },
                    ),
                    Err(error) => Progress::Done(Err(error)),
                },
            },
            Some(item) => match reply {
                Reply::Failed => Progress::Done(Err(IndexError::Transport)),
                Reply::Body(page) => {
                    let transcript = extract_transcript(page.as_str());
                    Progress::Done(Ok(item.with_transcript(transcript)))
                },
            },
        }
    }
}

/// Retry bound. When every request for the metadata of a comic fails to get
/// through, exactly [`MAX_ATTEMPTS`] requests are made, all of them for that
/// metadata, and the comic is then given up with [`IndexError::FetchFailed`].
/// Replies beyond the third are never asked for.
pub proof fn retry_bound(id: u64, replies: Seq<ReplyView>)
    requires
        replies.len() >= MAX_ATTEMPTS,
        forall|k: int| 0 <= k < MAX_ATTEMPTS ==> replies[k] is Failed,
    ensures
        FetchState::start(id).requests(replies) == seq![
            Request::Info(id),
            Request::Info(id),
            Request::Info(id),
        ],
        FetchState::start(id).outcome(replies) == Some(
            Err::<ComicView, IndexError>(IndexError::FetchFailed(id)),
        ),
{
    let first = FetchState::start(id);
    let second = FetchState::AwaitingInfo { id, attempt: 2 };
    let third = FetchState::AwaitingInfo { id, attempt: 3 };
    let after_one = replies.drop_first();
    let after_two = after_one.drop_first();
    // The first failure leads to the second request by unfolding once; the
    // second leads to the third, which is the last.
    assert(second.requests(after_one) == seq![Request::Info(id)] + third.requests(after_two));
    assert(second.outcome(after_one) == third.outcome(after_two));
}

/// The requests still to come from a state, at most.
pub open spec fn requests_left(state: FetchState) -> int {
    match state {
        FetchState::AwaitingInfo { attempt, .. } => MAX_ATTEMPTS - attempt + 2,
        FetchState::AwaitingPage { .. } => 1,
    }
}

/// Whatever the replies, fetching one comic takes no more than
/// [`MAX_ATTEMPTS`] requests for its metadata and one for its companion page.
pub proof fn requests_bounded(id: u64, replies: Seq<ReplyView>)
    ensures
        FetchState::start(id).requests(replies).len() <= MAX_ATTEMPTS + 1,
{
    requests_bounded_from(FetchState::start(id), replies);
}

proof fn requests_bounded_from(state: FetchState, replies: Seq<ReplyView>)
    requires
        state matches FetchState::AwaitingInfo { attempt, .. } ==> 1 <= attempt <= MAX_ATTEMPTS,
    ensures
        state.requests(replies).len() <= requests_left(state),
    decreases replies.len(),
{
    if replies.len() > 0 {
        match state.advance(replies[0]) {
            ProgressView::Next(next) => {
                requests_bounded_from(next, replies.drop_first());
            },
            ProgressView::Done(_) => {},
        }
    }
}

/// A comic is fetched as soon as one request for its metadata gets through
/// with a reply that decodes, whatever failed before, provided that its
/// companion page arrives as well. The page may hold anything: what it lacks
/// in anchors the transcript lacks in text.
pub proof fn fetch_succeeds(id: u64, failures: nat, body: Seq<char>, page: Seq<char>)
    requires
        failures < MAX_ATTEMPTS,
        comic_of_body(body) is Ok,
    ensures
        FetchState::start(id).outcome(
            Seq::new(failures, |k: int| ReplyView::Failed) + seq![
                ReplyView::Body(body),
                ReplyView::Body(page),
            ],
        ) == Some(
            Ok::<ComicView, IndexError>(
                comic_of_body(body)->Ok_0.with_transcript(transcript_of(page)),
            ),
        ),
{
    fetch_succeeds_from(id, 1, failures, body, page);
}

proof fn fetch_succeeds_from(id: u64, attempt: nat, failures: nat, body: Seq<char>, page: Seq<char>)
    requires
        attempt + failures <= MAX_ATTEMPTS,
        comic_of_body(body) is Ok,
    ensures
        (FetchState::AwaitingInfo { id, attempt }).outcome(
            Seq::new(failures, |k: int| ReplyView::Failed) + seq![
                ReplyView::Body(body),
                ReplyView::Body(page),
            ],
        ) == Some(
            Ok::<ComicView, IndexError>(
                comic_of_body(body)->Ok_0.with_transcript(transcript_of(page)),
            ),
        ),
    decreases failures,
{
    let state = FetchState::AwaitingInfo { id, attempt };
    let tail = seq![ReplyView::Body(body), ReplyView::Body(page)];
    let replies = Seq::new(failures, |k: int| ReplyView::Failed) + tail;
    if failures == 0 {
        let item = comic_of_body(body)->Ok_0;
        let waiting = FetchState::AwaitingPage { item };
        assert(waiting.outcome(replies.drop_first()) == Some(
            Ok::<ComicView, IndexError>(item.with_transcript(transcript_of(page))),
        ));
    } else {
        let fewer = (failures - 1) as nat;
        fetch_succeeds_from(id, attempt + 1, fewer, body, page);
        assert(replies.drop_first() =~= Seq::new(fewer, |k: int| ReplyView::Failed) + tail);
    }
}

/// Transcript fallback. A companion page that lacks one of the two anchors
/// still completes the comic: its transcript is empty, and nothing fails.
pub proof fn transcript_fallback(item: ComicView, page: Seq<char>)
    requires
        !crate::text::contains(page, crate::transcript::BEGIN_MARKER@) || !crate::text::contains(
            page,
            crate::transcript::END_MARKER@,
        ),
    ensures
        (FetchState::AwaitingPage { item }).advance(ReplyView::Body(page)) == ProgressView::Done(
            Ok(item.with_transcript(Seq::empty())),
        ),
{
    crate::transcript::transcript_needs_both_markers(page);
}

/// A remote side that answers each request in one fixed way, however often
/// the request is made.
pub struct Remote {
    /// What comes back when the metadata of a comic is asked for.
    pub info: spec_fn(u64) -> ReplyView,
    /// What comes back when the companion page of a comic is asked for.
    pub page: spec_fn(u64) -> ReplyView,
    /// What comes back when the latest comic is asked for.
    pub latest: ReplyView,
}

impl Remote {
    /// What comes back for a request.
    pub open spec fn reply(self, request: Request) -> ReplyView {
        match request {
            Request::Info(id) => (self.info)(id),
            Request::Page(id) => (self.page)(id),
            Request::Latest => self.latest,
        }
    }

    /// The result of fetching from `state` on with no more than `budget`
    /// requests, or `None` where these do not suffice.
    pub open spec fn fetch(self, state: FetchState, budget: nat) -> Option<
        Result<ComicView, IndexError>,
    >
        decreases budget,
    {
        if budget == 0 {
            None
        } else {
            match state.advance(self.reply(state.request())) {
                ProgressView::Next(next) => self.fetch(next, (budget - 1) as nat),
                ProgressView::Done(outcome) => Some(outcome),
            }
        }
    }

    /// The requests made while fetching from `state` on, no more than
    /// `budget` of them.
    pub open spec fn asked(self, state: FetchState, budget: nat) -> Seq<Request>
        decreases budget,
    {
        if budget == 0 {
            Seq::empty()
        } else {
            match state.advance(self.reply(state.request())) {
                ProgressView::Next(next) => seq![state.request()] + self.asked(
                    next,
                    (budget - 1) as nat,
                ),
                ProgressView::Done(_) => seq![state.request()],
            }
        }
    }

    /// What fetching the comic `id` comes to.
    pub open spec fn outcome(self, id: u64) -> Result<ComicView, IndexError> {
        match (self.info)(id) {
            ReplyView::Failed => Err(IndexError::FetchFailed(id)),
            ReplyView::Body(body) => match comic_of_body(body) {
                Err(error) => Err(error),
                Ok(item) => match (self.page)(item.id) {
                    ReplyView::Failed => Err(IndexError::Transport),
                    ReplyView::Body(page) => Ok(item.with_transcript(transcript_of(page))),
                },
            },
        }
    }

    /// The requests that fetching the comic `id` takes.
    pub open spec fn requests(self, id: u64) -> Seq<Request> {
        match (self.info)(id) {
            ReplyView::Failed => seq![Request::Info(id), Request::Info(id), Request::Info(id)],
            ReplyView::Body(body) => match comic_of_body(body) {
                Err(_) => seq![Request::Info(id)],
                Ok(item) => seq![Request::Info(id), Request::Page(item.id)],
            },
        }
    }
}

/// Fetching a comic from a remote side that answers in one fixed way.
///
/// Where no request for the metadata gets through, the metadata is asked for
/// exactly [`MAX_ATTEMPTS`] times, nothing else is asked for, and the comic
/// is given up with [`IndexError::FetchFailed`]. Where the metadata arrives
/// but cannot be decoded, it is not asked for again. Where it can be decoded,
/// the companion page is asked for once, and the comic is complete as soon as
/// any page arrives.
pub proof fn fetch_from_steady_remote(remote: Remote, id: u64)
    ensures
        remote.fetch(FetchState::start(id), (MAX_ATTEMPTS + 1) as nat) == Some(remote.outcome(id)),
        remote.asked(FetchState::start(id), (MAX_ATTEMPTS + 1) as nat) == remote.requests(id),
        (remote.info)(id) is Failed ==> remote.outcome(id) == Err::<ComicView, IndexError>(
            IndexError::FetchFailed(id),
        ),
{
    let first = FetchState::start(id);
    let second = FetchState::AwaitingInfo { id, attempt: 2 };
    let third = FetchState::AwaitingInfo { id, attempt: 3 };
    match (remote.info)(id) {
        ReplyView::Failed => {
            assert(remote.fetch(third, 2) == Some(remote.outcome(id)));
            assert(remote.fetch(second, 3) == Some(remote.outcome(id)));
            assert(remote.asked(third, 2) == seq![Request::Info(id)]);
            assert(remote.asked(second, 3) =~= seq![Request::Info(id), Request::Info(id)]);
        },
        ReplyView::Body(body) => {
            match comic_of_body(body) {
                Err(_) => {},
                Ok(item) => {
                    let waiting = FetchState::AwaitingPage { item };
                    assert(remote.fetch(waiting, 3) == Some(remote.outcome(id)));
                    assert(remote.asked(waiting, 3) == seq![Request::Page(item.id)]);
                },
            }
        },
    }
}

} // verus!
