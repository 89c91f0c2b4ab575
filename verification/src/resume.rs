//! The mathematics of resuming a crawl.
//!
//! A session walks the listing from its first page. It remembers the first
//! record it sees and, when it ends, leaves that record on the chunk stack
//! together with the link it would have followed next. A later session pops
//! that chunk, looks for its record on each page it reads, takes over only
//! what stands before the record, and continues at the chunk's link.

use vstd::prelude::*;
use crate::extractor::{Page, Record};

verus! {

/// The value of a chunk: where a session began and where it stopped.
#[verifier::ext_equal]
pub struct Anchor {
    /// The first record that the session saw.
    pub first_row: Record,
    /// The page that the session would have read next.
    pub next_page: Option<Seq<char>>,
}

/// The value of the persisted state of one listing.
#[verifier::ext_equal]
pub struct Progress {
    pub base_url: Seq<char>,
    /// Stack of chunks, the most recent last.
    pub chunks: Seq<Anchor>,
    /// Every record taken over so far, in the order of discovery.
    pub dependents: Seq<Record>,
}

/// What a session carries from one page to the next.
#[verifier::ext_equal]
pub struct Walk {
    /// The page to read next; `None` once the listing is exhausted.
    pub next_page: Option<Seq<char>>,
    /// The first record seen in this session, once a page has shown one.
    pub first_row: Option<Record>,
}

/// `rows[i]` is the first row that is the same entry as `wanted`.
pub open spec fn found_at(rows: Seq<Record>, wanted: Record, i: int) -> bool {
    &&& 0 <= i < rows.len()
    &&& rows[i].same_entry(wanted)
    &&& forall|j: int| 0 <= j < i ==> !(#[trigger] rows[j]).same_entry(wanted)
}

/// The index of the first row that is the same entry as `wanted`.
pub open spec fn position(rows: Seq<Record>, wanted: Record) -> Option<int> {
    if exists|i: int| found_at(rows, wanted, i) {
        Some(choose|i: int| found_at(rows, wanted, i))
    } else {
        None
    }
}

/// No row is the same entry as `wanted`.
pub open spec fn absent(rows: Seq<Record>, wanted: Record) -> bool {
    forall|j: int| 0 <= j < rows.len() ==> !(#[trigger] rows[j]).same_entry(wanted)
}

impl Walk {
    /// The first record of the session after `page` has been read.
    pub open spec fn note(self, page: Page) -> Option<Record> {
        if self.first_row is None && page.dependents.len() > 0 {
            Some(page.dependents[0])
        } else {
            self.first_row
        }
    }
}

impl Progress {
    /// The state of a listing of which nothing has been read yet.
    pub open spec fn empty(base_url: Seq<char>) -> Progress {
        Progress { base_url, chunks: Seq::empty(), dependents: Seq::empty() }
    }

    /// Every session starts at the first page.
    pub open spec fn begin(self) -> Walk {
        Walk { next_page: Some(self.base_url), first_row: None }
    }

    /// Whether `page` shows the record of the most recent chunk.
    pub open spec fn rejoins(self, page: Page) -> bool {
        self.chunks.len() > 0 && position(page.dependents, self.chunks.last().first_row) is Some
    }

    /// The state after `page` has been read.
    ///
    /// Where the page shows the record of the most recent chunk, the rows
    /// before it are new and are taken over, and the chunk is used up. On any
    /// other page every row is taken over.
    pub open spec fn absorb(self, page: Page) -> Progress {
        if self.rejoins(page) {
            let at = position(page.dependents, self.chunks.last().first_row)->0;
            Progress {
                chunks: self.chunks.drop_last(),
                dependents: self.dependents + page.dependents.take(at),
                ..self
            }
        } else {
            Progress { dependents: self.dependents + page.dependents, ..self }
        }
    }

    /// What the session carries on after `page` has been read: the chunk's
    /// link where the page rejoined it, the page's own link otherwise.
    pub open spec fn advance(self, walk: Walk, page: Page) -> Walk {
        Walk {
            next_page: if self.rejoins(page) {
                self.chunks.last().next_page
            } else {
                page.next_page
            },
            first_row: walk.note(page),
        }
    }

    /// The state after a session has ended: a session that saw a record
    /// leaves a chunk, any other leaves nothing.
    pub open spec fn commit(self, walk: Walk) -> Progress {
        match walk.first_row {
            Some(first_row) => Progress {
                chunks: self.chunks.push(Anchor { first_row, next_page: walk.next_page }),
                ..self
            },
            None => self,
        }
    }

    /// The state after a session has read `pages` in turn.
    pub open spec fn absorb_all(self, pages: Seq<Page>) -> Progress
        decreases pages.len(),
    {
        if pages.len() == 0 {
            self
        } else {
            self.absorb_all(pages.drop_last()).absorb(pages.last())
        }
    }

    /// What a session carries after it has read `pages` in turn.
    pub open spec fn walk_after(self, pages: Seq<Page>) -> Walk
        decreases pages.len(),
    {
        if pages.len() == 0 {
            self.begin()
        } else {
            self.absorb_all(pages.drop_last()).advance(
                self.walk_after(pages.drop_last()),
                pages.last(),
            )
        }
    }

    /// `pages` can be what a session of at most `limit` pages reads: it
    /// reads a page only while it has a link to follow.
    pub open spec fn reads(self, pages: Seq<Page>, limit: nat) -> bool {
        &&& pages.len() <= limit
        &&& forall|i: int|
            0 <= i < pages.len() ==> (#[trigger] self.walk_after(pages.take(i))).next_page is Some
    }

    /// The state that a session leaves which read `pages` and then ended.
    pub open spec fn after_session(self, pages: Seq<Page>) -> Progress {
        self.absorb_all(pages).commit(self.walk_after(pages))
    }

    /// The link that a session holds after it has read the first `i` of
    /// `pages`.
    pub open spec fn link_at(self, pages: Seq<Page>, i: int) -> Option<Seq<char>> {
        self.walk_after(pages.take(i)).next_page
    }

    /// A session of at most `limit` pages read `pages` and left `after`.
    /// A clean session ends when the limit is reached or no link is left;
    /// the other kind ends before the limit, on a link that it could not
    /// read.
    pub open spec fn session(self, pages: Seq<Page>, limit: nat, clean: bool, after: Progress) -> bool {
        &&& self.reads(pages, limit)
        &&& after == self.after_session(pages)
        &&& if clean {
            pages.len() == limit || self.walk_after(pages).next_page is None
        } else {
            pages.len() < limit && self.walk_after(pages).next_page is Some
        }
    }
}

/// A row found at `i` is where `position` points.
pub proof fn lemma_position_found(rows: Seq<Record>, wanted: Record, i: int)
    requires
        found_at(rows, wanted, i),
    ensures
        position(rows, wanted) == Some(i),
{
}

/// `position` finds a row exactly when one is the same entry.
pub proof fn lemma_position_absent(rows: Seq<Record>, wanted: Record)
    ensures
        position(rows, wanted) is None <==> absent(rows, wanted),
        position(rows, wanted) matches Some(i) ==> found_at(rows, wanted, i),
{
    if !absent(rows, wanted) {
        lemma_first_match(rows, wanted, rows.len() as int);
    }
}

/// Among the first `n` rows, one that is the same entry as `wanted` has a
/// first of its kind.
proof fn lemma_first_match(rows: Seq<Record>, wanted: Record, n: int)
    requires
        0 <= n <= rows.len(),
    ensures
        (exists|j: int| 0 <= j < n && (#[trigger] rows[j]).same_entry(wanted)) ==> exists|i: int|
            found_at(rows, wanted, i),
    decreases n,
{
    if n > 0 {
        lemma_first_match(rows, wanted, n - 1);
        if !(exists|j: int| 0 <= j < n - 1 && (#[trigger] rows[j]).same_entry(wanted))
            && rows[n - 1].same_entry(wanted) {
            assert(found_at(rows, wanted, n - 1));
        }
    }
}

/// Reading one page more: the state and the walk after `pages` and then
/// `page` come from those after `pages` by one step, and what stood before
/// stays as it was.
pub proof fn lemma_one_page_more(before: Progress, pages: Seq<Page>, page: Page)
    ensures
        before.absorb_all(pages.push(page)) == before.absorb_all(pages).absorb(page),
        before.walk_after(pages.push(page)) == before.absorb_all(pages).advance(
            before.walk_after(pages),
            page,
        ),
        pages.push(page).take(pages.len() as int) == pages,
        forall|i: int| 0 <= i <= pages.len() ==> #[trigger] pages.push(page).take(i) == pages.take(i),
{
    assert(pages.push(page).take(pages.len() as int) =~= pages);
    assert forall|i: int| 0 <= i <= pages.len() implies #[trigger] pages.push(page).take(i)
        == pages.take(i) by {}
}

/// Every row of `pages`, page after page.
pub open spec fn all_rows(pages: Seq<Page>) -> Seq<Record>
    decreases pages.len(),
{
    if pages.len() == 0 {
        Seq::empty()
    } else {
        all_rows(pages.drop_last()) + pages.last().dependents
    }
}

/// The rows of `a` and `b` are the same entries in the same order; their
/// counters may differ.
pub open spec fn same_entries(a: Seq<Record>, b: Seq<Record>) -> bool {
    &&& a.len() == b.len()
    &&& forall|i: int| 0 <= i < a.len() ==> (#[trigger] a[i]).same_entry(b[i])
}

/// A session of one page is one step from where it began.
pub proof fn lemma_first_page(before: Progress, pages: Seq<Page>)
    requires
        pages.len() == 1,
    ensures
        before.absorb_all(pages) == before.absorb(pages[0]),
        before.walk_after(pages) == before.advance(before.begin(), pages[0]),
{
    assert(before.walk_after(pages.drop_last()) == before.begin());
}

/// Reading pages changes neither the identity of the listing nor the
/// records that were there before, and the session keeps the first record
/// that it saw.
pub proof fn lemma_session_keeps(before: Progress, pages: Seq<Page>)
    ensures
        before.absorb_all(pages).base_url == before.base_url,
        before.after_session(pages).base_url == before.base_url,
        before.dependents.is_prefix_of(before.absorb_all(pages).dependents),
        before.after_session(pages).dependents == before.absorb_all(pages).dependents,
        pages.len() > 0 && pages[0].dependents.len() > 0 ==> before.walk_after(pages).first_row
            == Some(pages[0].dependents[0]),
        (forall|i: int| 0 <= i < pages.len() ==> (#[trigger] pages[i]).dependents.len() == 0)
            <==> before.walk_after(pages).first_row is None,
    decreases pages.len(),
{
    if pages.len() > 0 {
        let front = pages.drop_last();
        lemma_session_keeps(before, front);
        if before.walk_after(pages).first_row is None {
            assert forall|i: int| 0 <= i < pages.len() implies (#[trigger] pages[i]).dependents.len()
                == 0 by {
                if i < front.len() {
                    assert(front[i] == pages[i]);
                }
            }
        }
    }
}

/// A session that saw a record leaves a chunk on top of the stack: that
/// record, with the link that the session held when it ended. This is so
/// whether the session ended at its limit, at the end of the listing or on a
/// fetch that failed.
pub proof fn lemma_session_leaves_chunk(before: Progress, pages: Seq<Page>)
    requires
        before.walk_after(pages).first_row is Some,
    ensures
        before.after_session(pages).chunks.len() > 0,
        before.after_session(pages).chunks.last() == (Anchor {
            first_row: before.walk_after(pages).first_row->0,
            next_page: before.walk_after(pages).next_page,
        }),
        before.after_session(pages).chunks.drop_last() == before.absorb_all(pages).chunks,
{
}

/// New entries at the head. Where the first page shows the record of the
/// most recent chunk at index `at`, the session takes over the `at` rows
/// before it, in page order, and neither that record nor a row after it,
/// and goes on at the chunk's link. A session that ends there, because its
/// limit is one page or the chunk has no link, leaves the old records
/// followed by those `at` rows, and a chunk with the first row of the page
/// and the old link in place of the old chunk.
pub proof fn lemma_rejoin(before: Progress, pages: Seq<Page>, limit: nat, at: int)
    requires
        before.reads(pages, limit),
        pages.len() >= 1,
        before.chunks.len() > 0,
        found_at(pages[0].dependents, before.chunks.last().first_row, at),
    ensures
        before.absorb(pages[0]).dependents == before.dependents + pages[0].dependents.take(at),
        before.absorb(pages[0]).chunks == before.chunks.drop_last(),
        before.advance(before.begin(), pages[0]).next_page == before.chunks.last().next_page,
        limit == 1 || before.chunks.last().next_page is None ==> {
            &&& pages.len() == 1
            &&& before.after_session(pages).dependents == before.dependents
                + pages[0].dependents.take(at)
            &&& before.after_session(pages).chunks == before.chunks.drop_last().push(
                Anchor {
                    first_row: pages[0].dependents[0],
                    next_page: before.chunks.last().next_page,
                },
            )
        },
{
    lemma_position_found(pages[0].dependents, before.chunks.last().first_row, at);
    if limit == 1 || before.chunks.last().next_page is None {
        if pages.len() >= 2 {
            lemma_first_page(before, pages.take(1));
        }
        lemma_first_page(before, pages);
    }
}

/// Resuming where nothing has changed. Where the record of the most recent
/// chunk still heads the first page, that page adds no record. A session
/// that ends there, because its limit is one page or the chunk has no link,
/// leaves the records exactly as they were.
pub proof fn lemma_rejoin_at_head(before: Progress, pages: Seq<Page>, limit: nat)
    requires
        before.reads(pages, limit),
        pages.len() >= 1,
        before.chunks.len() > 0,
        pages[0].dependents.len() > 0,
        pages[0].dependents[0].same_entry(before.chunks.last().first_row),
    ensures
        before.absorb(pages[0]).dependents == before.dependents,
        before.advance(before.begin(), pages[0]).next_page == before.chunks.last().next_page,
        limit == 1 || before.chunks.last().next_page is None ==> before.after_session(
            pages,
        ).dependents == before.dependents,
{
    lemma_rejoin(before, pages, limit, 0);
}

/// A lost anchor. Where no page that the session reads shows the record of
/// the most recent chunk, every row of every page is taken over, the stack
/// is left as it was, and the session goes on at the link of each page. If
/// its first page has a row, the session leaves a chunk with that row and
/// the link of the last page on top of the old stack.
pub proof fn lemma_lost_anchor(before: Progress, pages: Seq<Page>)
    requires
        before.chunks.len() > 0 ==> forall|i: int|
            0 <= i < pages.len() ==> absent(
                (#[trigger] pages[i]).dependents,
                before.chunks.last().first_row,
            ),
    ensures
        before.absorb_all(pages).dependents == before.dependents + all_rows(pages),
        before.absorb_all(pages).chunks == before.chunks,
        pages.len() > 0 ==> before.walk_after(pages).next_page == pages.last().next_page,
        pages.len() > 0 && pages[0].dependents.len() > 0 ==> before.after_session(pages).chunks
            == before.chunks.push(
            Anchor { first_row: pages[0].dependents[0], next_page: pages.last().next_page },
        ),
    decreases pages.len(),
{
    if pages.len() > 0 {
        let front = pages.drop_last();
        if before.chunks.len() > 0 {
            assert forall|i: int| 0 <= i < front.len() implies absent(
                (#[trigger] front[i]).dependents,
                before.chunks.last().first_row,
            ) by {}
        }
        lemma_lost_anchor(before, front);
        if before.chunks.len() > 0 {
            lemma_position_absent(pages.last().dependents, before.chunks.last().first_row);
        }
        lemma_session_keeps(before, pages);
    }
}

/// A failed session can be resumed. A session that saw a record and then
/// ended on a link that it could not read leaves a chunk with that link.
/// The next session, if that record still heads the first page, takes
/// nothing from that page and goes on at that link.
pub proof fn lemma_failed_session_resumes(
    before: Progress,
    pages: Seq<Page>,
    limit: nat,
    after: Progress,
    again: Page,
)
    requires
        before.session(pages, limit, false, after),
        before.walk_after(pages).first_row is Some,
        again.dependents.len() > 0,
        again.dependents[0].same_entry(before.walk_after(pages).first_row->0),
    ensures
        after.chunks.len() > 0,
        after.chunks.last().next_page is Some,
        after.chunks.last().next_page == before.walk_after(pages).next_page,
        after.dependents == before.absorb_all(pages).dependents,
        after.absorb(again).dependents == after.dependents,
        after.absorb(again).chunks == before.absorb_all(pages).chunks,
        after.advance(after.begin(), again).next_page == before.walk_after(pages).next_page,
{
    lemma_session_leaves_chunk(before, pages);
    lemma_position_found(again.dependents, after.chunks.last().first_row, 0);
}

/// A session stops at its limit. A session that has read as many pages as
/// its limit allows ends cleanly, whatever link it holds then. If its first
/// page has a row, it leaves a chunk with that row and that link.
pub proof fn lemma_session_at_limit(
    before: Progress,
    pages: Seq<Page>,
    limit: nat,
    clean: bool,
    after: Progress,
)
    requires
        before.session(pages, limit, clean, after),
        pages.len() == limit,
    ensures
        clean,
        limit > 0 && pages[0].dependents.len() > 0 ==> after.chunks.len() > 0
            && after.chunks.last() == (Anchor {
            first_row: pages[0].dependents[0],
            next_page: before.walk_after(pages).next_page,
        }),
{
    if limit > 0 && pages[0].dependents.len() > 0 {
        lemma_session_keeps(before, pages);
        lemma_session_leaves_chunk(before, pages);
    }
}

/// Counters play no part. Two pages that show the same entries in the same
/// order lead to the same decisions, whatever their counters say: the same
/// rows are taken over, the same chunk is used up or kept, and the same link
/// is followed.
pub proof fn lemma_counters_ignored(before: Progress, walk: Walk, one: Page, other: Page)
    requires
        same_entries(one.dependents, other.dependents),
        one.next_page == other.next_page,
    ensures
        before.rejoins(one) == before.rejoins(other),
        same_entries(before.absorb(one).dependents, before.absorb(other).dependents),
        before.absorb(one).chunks == before.absorb(other).chunks,
        before.advance(walk, one).next_page == before.advance(walk, other).next_page,
{
    if before.chunks.len() > 0 {
        let wanted = before.chunks.last().first_row;
        lemma_position_absent(one.dependents, wanted);
        lemma_position_absent(other.dependents, wanted);
        if position(one.dependents, wanted) is Some {
            let at = position(one.dependents, wanted)->0;
            assert forall|j: int| 0 <= j < at implies !(#[trigger] other.dependents[j]).same_entry(
                wanted,
            ) by {
                assert(one.dependents[j].same_entry(other.dependents[j]));
            }
            lemma_position_found(other.dependents, wanted, at);
        } else {
            assert forall|j: int| 0 <= j < other.dependents.len() implies !(
            #[trigger] other.dependents[j]).same_entry(wanted) by {
                assert(one.dependents[j].same_entry(other.dependents[j]));
            }
        }
    }
}

} // verus!
