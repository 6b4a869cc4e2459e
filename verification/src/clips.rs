//! Clips of a broadcaster: the pages they arrive in, and the walk from page to page.

use crate::error::FetchError;
use crate::text::{decimal, decimal_string};
use vstd::prelude::*;
use vstd::string::*;

verus! {

/// One clip, as the service describes it.
#[derive(Debug)]
pub struct Clip {
    pub broadcaster_id: String,
    pub created_at: String,
    pub creator_id: String,
    pub embed_url: String,
    pub game_id: String,
    pub id: String,
    pub language: String,
    pub thumbnail_url: String,
    pub title: String,
    pub url: String,
    pub video_id: String,
    pub view_count: u32,
}

impl Clone for Clip {
    fn clone(&self) -> (r: Self)
        ensures
            r == *self,
    {
        Clip {
            broadcaster_id: self.broadcaster_id.clone(),
            created_at: self.created_at.clone(),
            creator_id: self.creator_id.clone(),
            embed_url: self.embed_url.clone(),
            game_id: self.game_id.clone(),
            id: self.id.clone(),
            language: self.language.clone(),
            thumbnail_url: self.thumbnail_url.clone(),
            title: self.title.clone(),
            url: self.url.clone(),
            video_id: self.video_id.clone(),
            view_count: self.view_count,
        }
    }
}

/// Where a page ends: the cursor of the page after it, if there is one.
#[derive(Debug)]
pub struct Pagination {
    pub cursor: Option<String>,
}

impl View for Pagination {
    type V = Option<Seq<char>>;

    open spec fn view(&self) -> Option<Seq<char>> {
        match self.cursor {
            Some(c) => Some(c@),
            None => None,
        }
    }
}

impl Clone for Pagination {
    fn clone(&self) -> (r: Self)
        ensures
            r == *self,
    {
        match &self.cursor {
            Some(c) => Pagination { cursor: Some(c.clone()) },
            None => Pagination { cursor: None },
        }
    }
}

/// One page of clips.
#[derive(Debug)]
pub struct PaginatedClips {
    pub data: Vec<Clip>,
    pub pagination: Pagination,
}

/// How a page is asked for: its size, and the cursor it starts after.
pub struct ClipsOptions {
    pub per_page: usize,
    pub after: Pagination,
}

impl Clone for ClipsOptions {
    fn clone(&self) -> (r: Self)
        ensures
            r == *self,
    {
        ClipsOptions { per_page: self.per_page, after: self.after.clone() }
    }
}

/// The path of one page of the clips of broadcaster `id`: `per_page` clips, from
/// the most recent one on, or from the cursor `after` on.
pub open spec fn clips_path(id: Seq<char>, per_page: nat, after: Option<Seq<char>>) -> Seq<char> {
    let first = "clips?broadcaster_id="@ + id + "&first="@ + decimal(per_page);
    match after {
        Some(cursor) => first + "&after="@ + cursor,
        None => first,
    }
}

/// The endpoint of one page of clips: its path under the root `helix/`.
pub open spec fn clips_endpoint(id: Seq<char>, per_page: nat, after: Option<Seq<char>>) -> Seq<
    char,
> {
    "helix/"@ + clips_path(id, per_page, after)
}

fn page_endpoint(id: &str, per_page: usize, after: &Pagination) -> (endpoint: String)
    ensures
        endpoint@ == clips_endpoint(id@, per_page as nat, after@),
{
    let mut path = String::from_str("clips?broadcaster_id=");
    path.append(id);
    path.append("&first=");
    path.append(decimal_string(per_page).as_str());
    if let Some(cursor) = &after.cursor {
        path.append("&after=");
        path.append(cursor.as_str());
    }
    String::from_str("helix/").concat(path.as_str())
}

impl PaginatedClips {
    /// The endpoint of the page of the clips of broadcaster `id` that `options`
    /// describes: `options.per_page` clips, from the most recent one on, or from the
    /// cursor `options.after` on.
    pub fn from_broadcaster(id: &str, options: &ClipsOptions) -> (endpoint: String)
        ensures
            endpoint@ == clips_endpoint(id@, options.per_page as nat, options.after@),
    {
        page_endpoint(id, options.per_page, &options.after)
    }

    /// The clips of this page, most recent first.
    pub fn data(&self) -> (clips: &Vec<Clip>)
        ensures
            clips == &self.data,
    {
        &self.data
    }
}

/// All pages of the clips of one broadcaster, in the order in which they were read.
#[derive(Debug)]
pub struct Clips {
    pub paginated_clips: Vec<PaginatedClips>,
}

/// The clips of `pages`, page after page.
pub open spec fn all_clips(pages: Seq<PaginatedClips>) -> Seq<Clip> {
    pages.map_values(|page: PaginatedClips| page.data@).flatten()
}

/// A walk through the pages of one broadcaster's clips that is waiting for a page:
/// whose clips, how many per page, the cursor of the page awaited and the pages read so far.
pub struct ClipsFetchView {
    pub id: Seq<char>,
    pub per_page: nat,
    pub after: Option<Seq<char>>,
    pub fetched: Seq<PaginatedClips>,
}

impl ClipsFetchView {
    /// The endpoint of the page awaited.
    pub open spec fn endpoint(self) -> Seq<char> {
        clips_endpoint(self.id, self.per_page, self.after)
    }
}

/// Where a walk stands once an answer has arrived.
pub enum Step {
    /// Another page is awaited.
    Pending(ClipsFetchView),
    /// The last page has been read; holds all pages in order.
    Complete(Seq<PaginatedClips>),
    /// A page could not be read; the pages read before it are given up.
    Failed(FetchError),
}

/// The walk that begins at the most recent clip of broadcaster `id`.
pub open spec fn start(id: Seq<char>, per_page: nat) -> ClipsFetchView {
    ClipsFetchView { id, per_page, after: None, fetched: Seq::empty() }
}

/// Where the walk `walk` stands after `answer` to its request: a failure ends it,
/// a page with a cursor leads on to the page after that cursor, and a page without
/// one completes it.
pub open spec fn step(walk: ClipsFetchView, answer: Result<PaginatedClips, FetchError>) -> Step {
    match answer {
        Err(failure) => Step::Failed(failure),
        Ok(page) => match page.pagination@ {
            Some(cursor) => Step::Pending(
                ClipsFetchView {
                    id: walk.id,
                    per_page: walk.per_page,
                    after: Some(cursor),
                    fetched: walk.fetched.push(page),
                },
            ),
            None => Step::Complete(walk.fetched.push(page)),
        },
    }
}

/// A walk through the pages of one broadcaster's clips that is waiting for the
/// answer to the request for `endpoint()`.
pub struct ClipsFetch {
    id: String,
    per_page: usize,
    after: Pagination,
    fetched: Vec<PaginatedClips>,
}

impl View for ClipsFetch {
    type V = ClipsFetchView;

    closed spec fn view(&self) -> ClipsFetchView {
        ClipsFetchView {
            id: self.id@,
            per_page: self.per_page as nat,
            after: self.after@,
            fetched: self.fetched@,
        }
    }
}

/// Where a walk stands once a page has arrived.
pub enum ClipsProgress {
    /// Another page is awaited: request it and hand in the answer.
    Pending(ClipsFetch),
    /// The last page has been read.
    Complete(Clips),
}

/// Where a walk stands after `advance` has returned `result`.
pub open spec fn outcome(result: Result<ClipsProgress, FetchError>) -> Step {
    match result {
        Ok(ClipsProgress::Pending(walk)) => Step::Pending(walk@),
        Ok(ClipsProgress::Complete(clips)) => Step::Complete(clips.paginated_clips@),
        Err(failure) => Step::Failed(failure),
    }
}

impl ClipsFetch {
    /// The endpoint of the page awaited.
    pub fn endpoint(&self) -> (endpoint: String)
        ensures
            endpoint@ == self@.endpoint(),
    {
        page_endpoint(self.id.as_str(), self.per_page, &self.after)
    }

    /// Takes the answer to the request for `endpoint()`. A failure ends the walk and
    /// is handed on as it came. A page is added to those read; if it names a cursor
    /// the walk goes on after it, else the walk is complete.
    pub fn advance(self, answer: Result<PaginatedClips, FetchError>) -> (result: Result<
        ClipsProgress,
        FetchError,
    >)
        ensures
            outcome(result) == step(self@, answer),
    {
        match answer {
            Err(failure) => Err(failure),
            Ok(page) => {
                let after = page.pagination.clone();
                let mut fetched = self.fetched;
                fetched.push(page);
                if after.cursor.is_some() {
                    Ok(
                        ClipsProgress::Pending(
                            ClipsFetch { id: self.id, per_page: self.per_page, after, fetched },
                        ),
                    )
                } else {
                    Ok(ClipsProgress::Complete(Clips { paginated_clips: fetched }))
                }
            },
        }
    }
}

/// The clips of `pages` followed by `page` are those of `pages`, then those of `page`.
proof fn all_clips_push(pages: Seq<PaginatedClips>, page: PaginatedClips)
    ensures
        all_clips(pages.push(page)) == all_clips(pages) + page.data@,
{
    let data = |page: PaginatedClips| page.data@;
    let one = seq![page.data@];
    assert(pages.push(page).map_values(data) =~= pages.map_values(data) + one);
    vstd::seq_lib::lemma_flatten_concat(pages.map_values(data), one);
    one.lemma_flatten_one_element();
}

impl Clips {
    /// All clips, page after page, in the order in which the pages hold them.
    pub fn into_clips(self) -> (clips: Vec<Clip>)
        ensures
            clips@ == all_clips(self.paginated_clips@),
    {
        let mut clips: Vec<Clip> = Vec::new();
        let ghost pages = self.paginated_clips@;
        for page in it: self.paginated_clips
            invariant
                it.seq() == pages,
                clips@ == all_clips(pages.take(it.index())),
        {
            proof {
                all_clips_push(pages.take(it.index()), page);
                assert(pages.take(it.index()).push(page) =~= pages.take(it.index() + 1));
            }
            let mut data = page.data;
            clips.append(&mut data);
        }
        assert(pages.take(pages.len() as int) =~= pages);
        clips
    }

    /// Begins reading the clips of broadcaster `id`, `options.per_page` to a page.
    /// The walk begins at the most recent clip, whatever cursor `options.after`
    /// names: its first request carries no cursor.
    pub fn from_broadcaster(id: &str, options: ClipsOptions) -> (walk: ClipsFetch)
        ensures
            walk@ == start(id@, options.per_page as nat),
    {
        ClipsFetch {
            id: String::from_str(id),
            per_page: options.per_page,
            after: Pagination { cursor: None },
            fetched: Vec::new(),
        }
    }
}

/// What a caller sees who requests the awaited page, hands in the next of `answers`
/// and goes on so until the walk ends or the answers run out: the endpoints
/// requested, and where the walk then stands.
pub struct Run {
    pub requests: Seq<Seq<char>>,
    pub end: Step,
}

/// The run of `walk` over `answers`.
pub open spec fn run(walk: ClipsFetchView, answers: Seq<Result<PaginatedClips, FetchError>>) -> Run
    decreases answers.len(),
{
    if answers.len() == 0 {
        Run { requests: Seq::empty(), end: Step::Pending(walk) }
    } else {
        match step(walk, answers[0]) {
            Step::Pending(next) => {
                let rest = run(next, answers.skip(1));
                Run { requests: seq![walk.endpoint()] + rest.requests, end: rest.end }
            },
            end => Run { requests: seq![walk.endpoint()], end },
        }
    }
}

/// Every page of `pages` but the last names a cursor, and the last names none.
pub open spec fn is_chain(pages: Seq<PaginatedClips>) -> bool {
    &&& pages.len() > 0
    &&& pages.last().pagination.cursor is None
    &&& forall|i: int| 0 <= i < pages.len() - 1 ==> (#[trigger] pages[i]).pagination.cursor is Some
}

/// The answers in which the pages `pages` arrive.
pub open spec fn arrivals(pages: Seq<PaginatedClips>) -> Seq<Result<PaginatedClips, FetchError>> {
    pages.map_values(|page: PaginatedClips| Ok::<PaginatedClips, FetchError>(page))
}

/// The endpoints of the pages of a chain read from `after` on: the first after
/// `after`, each other after the cursor of the page before it.
pub open spec fn chain_requests(
    id: Seq<char>,
    per_page: nat,
    after: Option<Seq<char>>,
    pages: Seq<PaginatedClips>,
) -> Seq<Seq<char>> {
    Seq::new(
        pages.len(),
        |i: int|
            clips_endpoint(
                id,
                per_page,
                if i == 0 {
                    after
                } else {
                    pages[i - 1].pagination@
                },
            ),
    )
}

proof fn run_over_chain(walk: ClipsFetchView, pages: Seq<PaginatedClips>)
    requires
        is_chain(pages),
    ensures
        run(walk, arrivals(pages)).end == Step::Complete(walk.fetched + pages),
        run(walk, arrivals(pages)).requests == chain_requests(
            walk.id,
            walk.per_page,
            walk.after,
            pages,
        ),
    decreases pages.len(),
{
    let answers = arrivals(pages);
    let made = run(walk, answers).requests;
    let expected = chain_requests(walk.id, walk.per_page, walk.after, pages);
    assert(answers[0] == Ok::<PaginatedClips, FetchError>(pages[0]));
    if pages.len() == 1 {
        assert(walk.fetched.push(pages[0]) =~= walk.fetched + pages);
        assert(made =~= expected);
    } else {
        let first = pages[0];
        assert(first.pagination.cursor is Some);
        let next = ClipsFetchView {
            id: walk.id,
            per_page: walk.per_page,
            after: first.pagination@,
            fetched: walk.fetched.push(first),
        };
        assert(step(walk, answers[0]) == Step::Pending(next));
        let rest = pages.skip(1);
        assert(is_chain(rest)) by {
            assert(rest.last() == pages.last());
            assert forall|i: int| 0 <= i < rest.len() - 1 implies (
            #[trigger] rest[i]).pagination.cursor is Some by {
                assert(rest[i] == pages[i + 1]);
            }
        }
        assert(answers.skip(1) =~= arrivals(rest));
        run_over_chain(next, rest);
        assert(next.fetched + rest =~= walk.fetched + pages);
        let later = chain_requests(next.id, next.per_page, next.after, rest);
        assert(made == seq![walk.endpoint()] + later);
        assert(made =~= expected) by {
            assert(made.len() == expected.len());
            assert forall|i: int| 0 <= i < made.len() implies made[i] == expected[i] by {
                if i > 0 {
                    assert(made[i] == later[i - 1]);
                    if i > 1 {
                        assert(rest[i - 2] == pages[i - 1]);
                    }
                }
            }
        }
    }
}

/// Reading a chain of pages collects exactly its pages, one request to a page.
///
/// Let the pages of `pages` arrive in order as the answers to the requests of the
/// walk begun by `Clips::from_broadcaster`, each page but the last naming a cursor
/// and the last naming none. Then the walk ends complete and holds those pages in
/// that order, so that its clips are the clips of the first page, then those of the
/// second, and so on. As many requests are made as there are pages: the first with
/// no cursor, each other with the cursor of the page before it.
pub proof fn chain_is_collected(id: Seq<char>, per_page: nat, pages: Seq<PaginatedClips>)
    requires
        is_chain(pages),
    ensures
        run(start(id, per_page), arrivals(pages)).end == Step::Complete(pages),
        run(start(id, per_page), arrivals(pages)).requests == chain_requests(
            id,
            per_page,
            None,
            pages,
        ),
        run(start(id, per_page), arrivals(pages)).requests.len() == pages.len(),
{
    run_over_chain(start(id, per_page), pages);
    assert(Seq::<PaginatedClips>::empty() + pages =~= pages);
}

/// Every page of `pages` names a cursor.
pub open spec fn all_lead_on(pages: Seq<PaginatedClips>) -> bool {
    forall|i: int| 0 <= i < pages.len() ==> (#[trigger] pages[i]).pagination.cursor is Some
}

proof fn run_into_failure(
    walk: ClipsFetchView,
    pages: Seq<PaginatedClips>,
    failure: FetchError,
    later: Seq<Result<PaginatedClips, FetchError>>,
)
    requires
        all_lead_on(pages),
    ensures
        run(walk, arrivals(pages).push(Err(failure)) + later).end == Step::Failed(failure),
        run(walk, arrivals(pages).push(Err(failure)) + later).requests.len() == pages.len() + 1,
    decreases pages.len(),
{
    let answers = arrivals(pages).push(Err(failure)) + later;
    if pages.len() == 0 {
        assert(answers[0] == Err::<PaginatedClips, FetchError>(failure));
    } else {
        let first = pages[0];
        assert(first.pagination.cursor is Some);
        assert(answers[0] == Ok::<PaginatedClips, FetchError>(first));
        let next = ClipsFetchView {
            id: walk.id,
            per_page: walk.per_page,
            after: first.pagination@,
            fetched: walk.fetched.push(first),
        };
        assert(step(walk, answers[0]) == Step::Pending(next));
        let rest = pages.skip(1);
        assert(all_lead_on(rest)) by {
            assert forall|i: int| 0 <= i < rest.len() implies (
            #[trigger] rest[i]).pagination.cursor is Some by {
                assert(rest[i] == pages[i + 1]);
            }
        }
        assert(answers.skip(1) =~= arrivals(rest).push(Err(failure)) + later);
        run_into_failure(next, rest, failure, later);
    }
}

/// A failure ends the walk at once.
///
/// Let the pages of `pages`, each naming a cursor, arrive in order as the answers
/// to the requests of the walk begun by `Clips::from_broadcaster`, and let the
/// request after them fail with `failure`. Then the walk ends with that failure,
/// whatever answers `later` might have followed: the pages read are given up, and
/// no request is made beyond the one that failed.
pub proof fn failure_ends_the_walk(
    id: Seq<char>,
    per_page: nat,
    pages: Seq<PaginatedClips>,
    failure: FetchError,
    later: Seq<Result<PaginatedClips, FetchError>>,
)
    requires
        all_lead_on(pages),
    ensures
        run(start(id, per_page), arrivals(pages).push(Err(failure)) + later).end == Step::Failed(
            failure,
        ),
        run(start(id, per_page), arrivals(pages).push(Err(failure)) + later).requests.len()
            == pages.len() + 1,
{
    run_into_failure(start(id, per_page), pages, failure, later);
}

} // verus!
