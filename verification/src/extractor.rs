//! Records of the listing and what one page of it yields.

use vstd::prelude::*;
use vstd::std_specs::cmp::PartialEqSpecImpl;
use scraper::{ElementRef, Html, Selector};
use crate::count::{count_of, parse_count};
use crate::markup::{attr_of, parse_document, parse_selector, select_all, select_within};
use crate::markup::{attribute_in, parsed_document, parsed_selector, selected_below};
use crate::markup::{selected_in, text_in, text_next_to};
use crate::markup::{text_after, text_of};

verus! {

/// One entry of the listing: a repository that depends on the target.
#[derive(Debug)]
pub struct Dependent {
    pub owner: String,
    pub repo: String,
    pub stars: usize,
    pub forks: usize,
}

/// The mathematical value of a [`Dependent`].
#[verifier::ext_equal]
pub struct Record {
    pub owner: Seq<char>,
    pub repo: Seq<char>,
    pub stars: nat,
    pub forks: nat,
}

impl Record {
    /// Two records are the same entry when owner and repository name agree;
    /// the counters play no part.
    pub open spec fn same_entry(self, other: Record) -> bool {
        self.owner == other.owner && self.repo == other.repo
    }
}

impl View for Dependent {
    type V = Record;

    open spec fn view(&self) -> Record {
        Record {
            owner: self.owner@,
            repo: self.repo@,
            stars: self.stars as nat,
            forks: self.forks as nat,
        }
    }
}

impl DeepView for Dependent {
    type V = Record;

    open spec fn deep_view(&self) -> Record {
        self@
    }
}

impl Clone for Dependent {
    fn clone(&self) -> (res: Self)
        ensures
            res@ == self@,
    {
        Dependent {
            owner: self.owner.clone(),
            repo: self.repo.clone(),
            stars: self.stars,
            forks: self.forks,
        }
    }
}

impl PartialEq for Dependent {
    fn eq(&self, other: &Self) -> (res: bool) {
        self.owner == other.owner && self.repo == other.repo
    }
}

impl PartialEqSpecImpl for Dependent {
    open spec fn obeys_eq_spec() -> bool {
        true
    }

    open spec fn eq_spec(&self, other: &Self) -> bool {
        self@.same_entry(other@)
    }
}

/// What one page of the listing yields: its records in page order and the
/// link to the page after it, if there is one.
#[derive(Debug)]
pub struct ExtractResult {
    pub dependents: Vec<Dependent>,
    pub next_page: Option<String>,
}

/// The mathematical value of an [`ExtractResult`].
#[verifier::ext_equal]
pub struct Page {
    pub dependents: Seq<Record>,
    pub next_page: Option<Seq<char>>,
}

/// The value of a text that may be missing.
pub open spec fn optional_text(text: Option<String>) -> Option<Seq<char>> {
    match text {
        Some(text) => Some(text@),
        None => None,
    }
}

impl View for ExtractResult {
    type V = Page;

    open spec fn view(&self) -> Page {
        Page { dependents: self.dependents.deep_view(), next_page: optional_text(self.next_page) }
    }
}

/// The texts that one row of the listing shows, as far as it shows them.
#[derive(Debug)]
pub struct RowCells {
    /// The name of the user or organisation.
    pub owner: Option<String>,
    /// The name of the repository.
    pub repo: Option<String>,
    /// The text beside the star.
    pub stars: Option<String>,
    /// The text beside the fork.
    pub forks: Option<String>,
}

/// The mathematical value of [`RowCells`].
#[verifier::ext_equal]
pub struct Cells {
    pub owner: Option<Seq<char>>,
    pub repo: Option<Seq<char>>,
    pub stars: Option<Seq<char>>,
    pub forks: Option<Seq<char>>,
}

impl View for RowCells {
    type V = Cells;

    open spec fn view(&self) -> Cells {
        Cells {
            owner: optional_text(self.owner),
            repo: optional_text(self.repo),
            stars: optional_text(self.stars),
            forks: optional_text(self.forks),
        }
    }
}

impl DeepView for RowCells {
    type V = Cells;

    open spec fn deep_view(&self) -> Cells {
        self@
    }
}

impl Cells {
    /// The counter that a cell shows, if the cell is there and shows one.
    pub open spec fn counter(cell: Option<Seq<char>>) -> Option<usize> {
        match cell {
            Some(text) => count_of(text),
            None => None,
        }
    }

    /// A row is complete when it shows both names and both counters.
    pub open spec fn complete(self) -> bool {
        &&& self.owner is Some
        &&& self.repo is Some
        &&& Self::counter(self.stars) is Some
        &&& Self::counter(self.forks) is Some
    }

    /// The record that a complete row shows.
    pub open spec fn record(self) -> Record {
        Record {
            owner: self.owner->0,
            repo: self.repo->0,
            stars: Self::counter(self.stars)->0 as nat,
            forks: Self::counter(self.forks)->0 as nat,
        }
    }
}

/// The records of the complete rows among `rows`, in their order.
pub open spec fn records_of(rows: Seq<Cells>) -> Seq<Record>
    decreases rows.len(),
{
    if rows.len() == 0 {
        Seq::empty()
    } else if rows.last().complete() {
        records_of(rows.drop_last()).push(rows.last().record())
    } else {
        records_of(rows.drop_last())
    }
}

impl Dependent {
    /// The record that a row shows, or `None` where the row lacks a name or
    /// a counter.
    pub fn from_cells(cells: RowCells) -> (res: Option<Dependent>)
        ensures
            res is Some == cells@.complete(),
            res matches Some(row) ==> row@ == cells@.record(),
    {
        let RowCells { owner, repo, stars, forks } = cells;
        let stars = match stars {
            Some(text) => parse_count(text.as_str()),
            None => None,
        };
        let forks = match forks {
            Some(text) => parse_count(text.as_str()),
            None => None,
        };
        match (owner, repo, stars, forks) {
            (Some(owner), Some(repo), Some(stars), Some(forks)) => Some(
                Dependent { owner, repo, stars, forks },
            ),
            _ => None,
        }
    }
}

impl ExtractResult {
    /// The page that `rows` and `next_page` make up: rows that are not
    /// complete are left out, the others keep their order.
    pub fn from_rows(rows: Vec<RowCells>, next_page: Option<String>) -> (res: ExtractResult)
        ensures
            res@.dependents == records_of(rows.deep_view()),
            res@.next_page == optional_text(next_page),
    {
        let ghost cells = rows.deep_view();
        let mut dependents: Vec<Dependent> = Vec::new();
        for row in it: rows
            invariant
                it.seq().len() == cells.len(),
                forall|i: int| 0 <= i < cells.len() ==> (#[trigger] it.seq()[i])@ == cells[i],
                dependents.deep_view() == records_of(cells.take(it.index() as int)),
        {
            let ghost seen = it.index() as int;
            assert(cells.take(seen + 1).drop_last() =~= cells.take(seen));
            match Dependent::from_cells(row) {
                Some(dependent) => {
                    dependents.push(dependent);
                },
                None => {},
            }
        }
        assert(cells.take(cells.len() as int) =~= cells);
        ExtractResult { dependents, next_page }
    }
}

/// Selects the link to the next page.
pub const NEXT_PAGE: &'static str = ".paginate-container a:last-child";

/// Selects the rows of the listing.
pub const ROWS: &'static str = "[data-test-id=\"dg-repo-pkg-dependent\"]";

/// Selects, in a row, the name of the owner.
pub const USER: &'static str = "[data-hovercard-type=\"user\"], [data-hovercard-type=\"organization\"]";

/// Selects, in a row, the name of the repository.
pub const REPO: &'static str = "[data-hovercard-type=\"repository\"]";

/// Selects, in a row, the star that stands before the number of stars.
pub const STAR: &'static str = ".octicon-star";

/// Selects, in a row, the fork that stands before the number of forks.
pub const FORK: &'static str = ".octicon-repo-forked";

/// Reads pages of the listing.
pub struct Extractor {
    next_page: Selector,
    rows: Selector,
    user: Selector,
    repo: Selector,
    star: Selector,
    fork: Selector,
}

impl Extractor {
    /// Every selector that an extractor needs is one that the parser accepts.
    pub open spec fn selectors_parse() -> bool {
        &&& parsed_selector(NEXT_PAGE@) is Some
        &&& parsed_selector(ROWS@) is Some
        &&& parsed_selector(USER@) is Some
        &&& parsed_selector(REPO@) is Some
        &&& parsed_selector(STAR@) is Some
        &&& parsed_selector(FORK@) is Some
    }

    /// An extractor, unless the parser rejects one of the selectors.
    pub fn new() -> (res: Option<Self>)
        ensures
            res is Some == Self::selectors_parse(),
    {
        let next_page = parse_selector(NEXT_PAGE);
        let rows = parse_selector(ROWS);
        let user = parse_selector(USER);
        let repo = parse_selector(REPO);
        let star = parse_selector(STAR);
        let fork = parse_selector(FORK);
        match (next_page, rows, user, repo, star, fork) {
            (Some(next_page), Some(rows), Some(user), Some(repo), Some(star), Some(fork)) => Some(
                Self { next_page, rows, user, repo, star, fork },
            ),
            _ => None,
        }
    }

    /// The records that the page `html` shows, in page order, and its link
    /// to the next page. A row that lacks a name or a counter is left out.
    pub fn extract_from_html(&self, html: &str) -> (res: ExtractResult)
        ensures
            res@ == Self::page_shown(html@),
    {
        let document = parse_document(html);
        let elements = select_all(&document, &self.rows);
        let rows = self.read_rows(&elements);
        let links = select_all(&document, &self.next_page);
        let next_page = if links.len() > 0 {
            attr_of(&links[0], "href")
        } else {
            None
        };
        proof {
            use_type_invariant(self);
        }
        ExtractResult::from_rows(rows, next_page)
    }

    /// The texts that `row` shows.
    ///
    /// The names are the texts of the first element below `row` that is a
    /// user or an organisation, and of the first that is a repository. The
    /// counters are the texts that follow the first star and the first fork
    /// below `row`. A text that is not there is `None`.
    fn read_row(&self, row: &ElementRef) -> (res: RowCells)
        ensures
            res@ == Self::cells_shown(*row),
    {
        proof {
            use_type_invariant(self);
        }
        let users = select_within(row, &self.user);
        let owner = if users.len() > 0 {
            Some(text_of(&users[0]))
        } else {
            None
        };
        let repos = select_within(row, &self.repo);
        let repo = if repos.len() > 0 {
            Some(text_of(&repos[0]))
        } else {
            None
        };
        let stars_at = select_within(row, &self.star);
        let stars = if stars_at.len() > 0 {
            text_after(&stars_at[0])
        } else {
            None
        };
        let forks_at = select_within(row, &self.fork);
        let forks = if forks_at.len() > 0 {
            text_after(&forks_at[0])
        } else {
            None
        };
        RowCells { owner, repo, stars, forks }
    }

    /// The texts that each of `elements` shows, in their order.
    fn read_rows(&self, elements: &Vec<ElementRef>) -> (res: Vec<RowCells>)
        ensures
            res.deep_view() == Self::rows_shown(elements@),
    {
        let mut rows: Vec<RowCells> = Vec::new();
        let mut i: usize = 0;
        while i < elements.len()
            invariant
                i <= elements.len(),
                rows.deep_view() == Self::rows_shown(elements@.take(i as int)),
            decreases elements.len() - i,
        {
            let ghost had = rows.deep_view();
            let cells = self.read_row(&elements[i]);
            rows.push(cells);
            assert(rows.deep_view() =~= had.push(cells@));
            assert(elements@.take(i + 1) =~= elements@.take(i as int).push(elements@[i as int]));
            i += 1;
        }
        assert(elements@.take(elements@.len() as int) =~= elements@);
        rows
    }

    /// Each selector of an extractor is what the parser makes of the text
    /// that is written down for it.
    #[verifier::type_invariant]
    spec fn selectors_as_written(&self) -> bool {
        &&& parsed_selector(NEXT_PAGE@) == Some(self.next_page)
        &&& parsed_selector(ROWS@) == Some(self.rows)
        &&& parsed_selector(USER@) == Some(self.user)
        &&& parsed_selector(REPO@) == Some(self.repo)
        &&& parsed_selector(STAR@) == Some(self.star)
        &&& parsed_selector(FORK@) == Some(self.fork)
    }

    /// The elements below `row` that the selector written as `css` selects.
    pub open spec fn found_below(row: ElementRef<'static>, css: Seq<char>) -> Seq<
        ElementRef<'static>,
    > {
        selected_below(row, parsed_selector(css)->0)
    }

    /// The text of the first element below `row` that `css` selects.
    pub open spec fn first_text(row: ElementRef<'static>, css: Seq<char>) -> Option<Seq<char>> {
        if Self::found_below(row, css).len() > 0 {
            Some(text_in(Self::found_below(row, css)[0]))
        } else {
            None
        }
    }

    /// The text that follows the first element below `row` that `css`
    /// selects.
    pub open spec fn text_beside(row: ElementRef<'static>, css: Seq<char>) -> Option<Seq<char>> {
        if Self::found_below(row, css).len() > 0 {
            text_next_to(Self::found_below(row, css)[0])
        } else {
            None
        }
    }

    /// The texts that `row` shows.
    pub open spec fn cells_shown(row: ElementRef<'static>) -> Cells {
        Cells {
            owner: Self::first_text(row, USER@),
            repo: Self::first_text(row, REPO@),
            stars: Self::text_beside(row, STAR@),
            forks: Self::text_beside(row, FORK@),
        }
    }

    /// The texts that each of `elements` shows, in their order.
    pub open spec fn rows_shown(elements: Seq<ElementRef<'static>>) -> Seq<Cells> {
        elements.map_values(|row: ElementRef<'static>| Self::cells_shown(row))
    }

    /// The target of the first link to the next page in `document`.
    pub open spec fn link_shown(document: Html) -> Option<Seq<char>> {
        let links = selected_in(document, parsed_selector(NEXT_PAGE@)->0);
        if links.len() > 0 {
            attribute_in(links[0], "href"@)
        } else {
            None
        }
    }

    /// The page that `html` shows. Its records are those of the rows of the
    /// document that are complete, in the order of the rows. Its link is the
    /// target of the first link to the next page.
    pub open spec fn page_shown(html: Seq<char>) -> Page {
        let document = parsed_document(html);
        let rows = selected_in(document, parsed_selector(ROWS@)->0);
        Page { dependents: records_of(Self::rows_shown(rows)), next_page: Self::link_shown(document) }
    }
}

} // verus!
