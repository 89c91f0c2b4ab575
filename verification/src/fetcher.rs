//! The crawl session: reading the listing page by page and resuming where an
//! earlier session stopped.

use vstd::prelude::*;
use crate::extractor::{optional_text, Dependent, ExtractResult, Extractor, Page};
use crate::resume::{
    lemma_one_page_more, lemma_position_absent, lemma_position_found, position, Anchor, Progress,
    Walk,
};

verus! {

/// What one session leaves for the next: the first record it saw and the
/// link it would have followed next.
#[derive(Debug)]
pub struct FetchChunk {
    pub first_row: Dependent,
    pub next_page: Option<String>,
}

impl View for FetchChunk {
    type V = Anchor;

    open spec fn view(&self) -> Anchor {
        Anchor { first_row: self.first_row@, next_page: optional_text(self.next_page) }
    }
}

impl DeepView for FetchChunk {
    type V = Anchor;

    open spec fn deep_view(&self) -> Anchor {
        self@
    }
}

/// Everything that is kept of one listing between runs.
#[derive(Debug)]
pub struct State {
    /// The first page of the listing; it tells listings apart.
    pub base_url: String,
    /// Stack of chunks, the most recent last.
    pub chunks: Vec<FetchChunk>,
    /// Every record taken over so far, in the order of discovery.
    pub dependents: Vec<Dependent>,
}

impl View for State {
    type V = Progress;

    open spec fn view(&self) -> Progress {
        Progress {
            base_url: self.base_url@,
            chunks: self.chunks.deep_view(),
            dependents: self.dependents.deep_view(),
        }
    }
}

impl State {
    /// The state of a listing of which nothing has been read yet.
    pub fn new(base_url: String) -> (res: Self)
        ensures
            res@ == Progress::empty(base_url@),
            res.base_url == base_url,
    {
        Self { base_url, chunks: Vec::new(), dependents: Vec::new() }
    }
}

/// The index of the first row that is the same entry as `wanted`.
pub fn position_of(rows: &Vec<Dependent>, wanted: &Dependent) -> (res: Option<usize>)
    ensures
        match res {
            Some(i) => position(rows.deep_view(), wanted@) == Some(i as int),
            None => position(rows.deep_view(), wanted@) is None,
        },
{
    let mut i: usize = 0;
    while i < rows.len()
        invariant
            i <= rows.len(),
            forall|j: int| 0 <= j < i ==> !(#[trigger] rows.deep_view()[j]).same_entry(wanted@),
        decreases rows.len() - i,
    {
        if rows[i] == *wanted {
            proof {
                lemma_position_found(rows.deep_view(), wanted@, i as int);
            }
            return Some(i);
        }
        i += 1;
    }
    proof {
        lemma_position_absent(rows.deep_view(), wanted@);
    }
    None
}

/// What a session carries from one page to the next.
#[derive(Debug)]
pub struct Session {
    /// The page to read next; `None` once the listing is exhausted.
    pub next_page: Option<String>,
    /// The first record seen in this session, once a page has shown one.
    pub first_row: Option<Dependent>,
}

impl View for Session {
    type V = Walk;

    open spec fn view(&self) -> Walk {
        Walk {
            next_page: optional_text(self.next_page),
            first_row: match self.first_row {
                Some(row) => Some(row@),
                None => None,
            },
        }
    }
}

impl Session {
    /// A session starts at the first page of the listing.
    pub fn begin(state: &State) -> (res: Session)
        ensures
            res@ == state@.begin(),
    {
        Session { next_page: Some(state.base_url.clone()), first_row: None }
    }

    /// Takes a page into the state and moves on to the link that follows it.
    pub fn absorb(&mut self, state: &mut State, page: ExtractResult)
        ensures
            final(state)@ == old(state)@.absorb(page@),
            final(self)@ == old(state)@.advance(old(self)@, page@),
    {
        let ExtractResult { dependents, next_page } = page;
        let mut dependents = dependents;
        if self.first_row.is_none() && dependents.len() > 0 {
            self.first_row = Some(dependents[0].clone());
        }
        match state.chunks.pop() {
            Some(chunk) => {
                match position_of(&dependents, &chunk.first_row) {
                    Some(at) => {
                        dependents.truncate(at);
                        state.dependents.append(&mut dependents);
                        self.next_page = chunk.next_page;
                        return ;
                    },
                    None => {
                        state.chunks.push(chunk);
                    },
                }
            },
            None => {},
        }
        state.dependents.append(&mut dependents);
        self.next_page = next_page;
    }

    /// Ends the session: a session that saw a record leaves a chunk.
    pub fn commit(self, state: &mut State)
        ensures
            final(state)@ == old(state)@.commit(self@),
    {
        match self.first_row {
            Some(first_row) => {
                let chunk = FetchChunk { first_row, next_page: self.next_page };
                state.chunks.push(chunk);
            },
            None => {},
        }
    }
}

/// `outcome` is something that `fetch_page` can return for the page at `link`.
pub open spec fn answers<F, E>(fetch_page: F, link: Seq<char>, outcome: Result<ExtractResult, E>) -> bool
    where F: Fn(&str) -> Result<ExtractResult, E> {
    exists|url: &str| url@ == link && #[trigger] call_ensures(fetch_page, (url,), outcome)
}

/// The values of the pages that a session fetched.
pub open spec fn pages_of(fetched: Seq<ExtractResult>) -> Seq<Page> {
    fetched.map_values(|page: ExtractResult| page@)
}

/// A session of at most `limit` pages fetched `fetched`, in this order, from
/// `fetch_page`, ended with `res` and turned the state `before` into `after`.
///
/// Each page was fetched from the link that the session held when it asked.
/// The session ended with the error of the first fetch that failed, and
/// cleanly if none did. Either way `after` has every page that was fetched,
/// and the chunk of this session.
pub open spec fn crawled<F, E>(
    fetch_page: F,
    before: Progress,
    limit: nat,
    fetched: Seq<ExtractResult>,
    res: Result<(), E>,
    after: Progress,
) -> bool where F: Fn(&str) -> Result<ExtractResult, E> {
    let pages = pages_of(fetched);
    &&& before.session(pages, limit, res is Ok, after)
    &&& forall|i: int|
        0 <= i < fetched.len() ==> answers(
            fetch_page,
            before.link_at(pages, i)->0,
            Ok::<ExtractResult, E>(#[trigger] fetched[i]),
        )
    &&& res matches Err(error) ==> answers(
        fetch_page,
        before.walk_after(pages).next_page->0,
        Err::<ExtractResult, E>(error),
    )
}

impl State {
    /// Runs one session of at most `num_pages` pages.
    ///
    /// The session starts at the first page whatever happened before, asks
    /// `fetch_page` for one page at a time and follows the links. The first
    /// fetch that fails ends the session, and its error is returned once the
    /// chunk of the session is in the state.
    pub fn crawl<F, E>(&mut self, num_pages: usize, fetch_page: &F) -> (res: Result<(), E>) where
        F: Fn(&str) -> Result<ExtractResult, E>,

        requires
            forall|url: &str| call_requires(*fetch_page, (url,)),
        ensures
            exists|fetched: Seq<ExtractResult>|
                crawled(*fetch_page, old(self)@, num_pages as nat, fetched, res, final(self)@),
    {
        let ghost before = self@;
        let ghost mut fetched: Seq<ExtractResult> = Seq::empty();
        let mut session = Session::begin(self);
        let mut count: usize = 0;
        while count < num_pages && session.next_page.is_some()
            invariant
                before == old(self)@,
                count == fetched.len(),
                count <= num_pages,
                self@ == before.absorb_all(pages_of(fetched)),
                session@ == before.walk_after(pages_of(fetched)),
                before.reads(pages_of(fetched), count as nat),
                forall|i: int|
                    0 <= i < fetched.len() ==> answers(
                        *fetch_page,
                        before.link_at(pages_of(fetched), i)->0,
                        Ok::<ExtractResult, E>(#[trigger] fetched[i]),
                    ),
                forall|url: &str| call_requires(*fetch_page, (url,)),
            decreases num_pages - count,
        {
            let url = session.next_page.as_ref().unwrap();
            let outcome = fetch_page(url.as_str());
            let page = match outcome {
                Ok(page) => page,
                Err(error) => {
                    session.commit(self);
                    assert(crawled(*fetch_page, before, num_pages as nat, fetched, Err(error), self@));
                    return Err(error);
                },
            };
            proof {
                let pages = pages_of(fetched);
                lemma_one_page_more(before, pages, page@);
                assert(pages_of(fetched.push(page)) =~= pages.push(page@));
                assert forall|i: int| 0 <= i < fetched.len() + 1 implies answers(
                    *fetch_page,
                    before.link_at(pages.push(page@), i)->0,
                    Ok::<ExtractResult, E>(#[trigger] fetched.push(page)[i]),
                ) by {}
                assert forall|i: int| 0 <= i < pages.len() + 1 implies (#[trigger] before.walk_after(
                    pages.push(page@).take(i),
                )).next_page is Some by {}
                fetched = fetched.push(page);
            }
            session.absorb(self, page);
            count += 1;
        }
        session.commit(self);
        assert(crawled(*fetch_page, before, num_pages as nat, fetched, Ok::<(), E>(()), self@));
        Ok(())
    }
}

/// What the transport brought back for one request.
#[derive(Debug)]
pub struct HttpReply {
    /// The status code of the response.
    pub status: u16,
    /// The body of the response.
    pub body: String,
}

/// Why a page could not be fetched.
#[derive(Debug)]
pub enum FetchError {
    /// The request did not get a response; the text says why.
    Transport(String),
    /// The response had this status, which is not one of success.
    Status(u16),
}

/// The status codes of success are 200 to 299.
pub open spec fn is_success(status: u16) -> bool {
    200 <= status <= 299
}

/// What is made of a reply: the body where the status is one of success, an
/// error otherwise.
pub open spec fn body_of(reply: Result<HttpReply, String>) -> Result<String, FetchError> {
    match reply {
        Ok(reply) => if is_success(reply.status) {
            Ok(reply.body)
        } else {
            Err(FetchError::Status(reply.status))
        },
        Err(reason) => Err(FetchError::Transport(reason)),
    }
}

/// The body of a reply, or the error that the reply amounts to.
pub fn check_reply(reply: Result<HttpReply, String>) -> (res: Result<String, FetchError>)
    ensures
        res == body_of(reply),
{
    match reply {
        Ok(reply) => if 200 <= reply.status && reply.status <= 299 {
            Ok(reply.body)
        } else {
            Err(FetchError::Status(reply.status))
        },
        Err(reason) => Err(FetchError::Transport(reason)),
    }
}

/// Crawls a listing over a transport: a function that, given a link, makes
/// the request and brings back the reply.
pub struct Fetcher<T> {
    pub transport: T,
    pub extractor: Extractor,
}

impl<T: Fn(&str) -> Result<HttpReply, String>> Fetcher<T> {
    /// The transport can be asked for any link.
    pub open spec fn ready(&self) -> bool {
        forall|url: &str| call_requires(self.transport, (url,))
    }

    /// `outcome` is something that fetching the page at `link` can end in:
    /// the transport can bring back a reply for `link` that amounts to the
    /// error of `outcome`, or, where `outcome` is a page, to a body that
    /// shows that page.
    pub open spec fn gives(&self, link: Seq<char>, outcome: Result<ExtractResult, FetchError>) -> bool {
        exists|url: &str, reply: Result<HttpReply, String>|
            #![trigger call_ensures(self.transport, (url,), reply)]
            {
                &&& url@ == link
                &&& call_ensures(self.transport, (url,), reply)
                &&& match outcome {
                    Ok(page) => body_of(reply) matches Ok(body) && page@ == Extractor::page_shown(
                        body@,
                    ),
                    Err(error) => body_of(reply) == Err::<String, FetchError>(error),
                }
            }
    }

    /// A session of at most `limit` pages fetched `fetched`, in this order,
    /// ended with `res` and turned the state `before` into `after`.
    ///
    /// Each page was fetched from the link that the session held when it
    /// asked. The session ended with the error of the first fetch that
    /// failed, and cleanly if none did. Either way `after` has every page
    /// that was fetched, and the chunk of this session.
    pub open spec fn crawled(
        &self,
        before: Progress,
        limit: nat,
        fetched: Seq<ExtractResult>,
        res: Result<(), FetchError>,
        after: Progress,
    ) -> bool {
        let pages = pages_of(fetched);
        &&& before.session(pages, limit, res is Ok, after)
        &&& forall|i: int|
            0 <= i < fetched.len() ==> self.gives(
                before.link_at(pages, i)->0,
                Ok(#[trigger] fetched[i]),
            )
        &&& res matches Err(error) ==> self.gives(
            before.walk_after(pages).next_page->0,
            Err(error),
        )
    }

    /// A fetcher over `transport`, unless the HTML parser rejects one of the
    /// selectors of the extractor.
    pub fn new(transport: T) -> (res: Option<Self>)
        ensures
            res is Some == Extractor::selectors_parse(),
            res matches Some(fetcher) ==> fetcher.transport == transport,
    {
        match Extractor::new() {
            Some(extractor) => Some(Self { transport, extractor }),
            None => None,
        }
    }

    /// Runs one session of at most `num_pages` pages over the transport.
    ///
    /// The session starts at the first page whatever happened before and
    /// follows the links. The first fetch that fails ends the session, and
    /// its error is returned once the chunk of the session is in the state.
    pub fn fetch_pages(&self, state: &mut State, num_pages: usize) -> (res: Result<(), FetchError>)
        requires
            self.ready(),
        ensures
            exists|fetched: Seq<ExtractResult>|
                self.crawled(old(state)@, num_pages as nat, fetched, res, final(state)@),
    {
        let fetch_page = |url: &str| -> (outcome: Result<ExtractResult, FetchError>)
            ensures
                self.gives(url@, outcome),
            { self.try_fetch_page(url) };
        let res = state.crawl(num_pages, &fetch_page);
        proof {
            let fetched = choose|fetched: Seq<ExtractResult>|
                crawled(fetch_page, old(state)@, num_pages as nat, fetched, res, state@);
            assert(self.crawled(old(state)@, num_pages as nat, fetched, res, state@));
        }
        res
    }

    /// Fetches the page at `url` and reads it.
    fn try_fetch_page(&self, url: &str) -> (res: Result<ExtractResult, FetchError>)
        requires
            self.ready(),
        ensures
            self.gives(url@, res),
    {
        let reply = (self.transport)(url);
        match check_reply(reply) {
            Ok(html) => Ok(self.extractor.extract_from_html(html.as_str())),
            Err(error) => Err(error),
        }
    }
}

} // verus!
