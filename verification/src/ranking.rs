//! The order in which records are shown: most stars first, and by owner and
//! repository name among records with the same number of stars.

use std::cmp::Ordering;
use vstd::prelude::*;
use crate::extractor::{Dependent, Record};

verus! {

/// `a` comes before `b` in the order of strings: at the first place where
/// they differ `a` has the smaller code point, or `a` ends there and `b`
/// goes on.
pub open spec fn text_lt(a: Seq<char>, b: Seq<char>) -> bool
    decreases a.len(),
{
    if b.len() == 0 {
        false
    } else if a.len() == 0 {
        true
    } else if a[0] != b[0] {
        code_point(a[0]) < code_point(b[0])
    } else {
        text_lt(a.drop_first(), b.drop_first())
    }
}

/// The place of a character in the code charts.
pub open spec fn code_point(c: char) -> int {
    c as int
}

/// `a` is shown before `b`.
pub open spec fn ranks_before(a: Record, b: Record) -> bool {
    ||| a.stars > b.stars
    ||| a.stars == b.stars && text_lt(a.owner, b.owner)
    ||| a.stars == b.stars && a.owner == b.owner && text_lt(a.repo, b.repo)
}

/// Neither of `a` and `b` is shown before the other: they agree in stars,
/// owner and repository name.
pub open spec fn ties(a: Record, b: Record) -> bool {
    a.stars == b.stars && a.owner == b.owner && a.repo == b.repo
}

/// No row of `rows` is shown after a row that it should be shown before.
pub open spec fn ranked(rows: Seq<Record>) -> bool {
    forall|i: int, j: int|
        0 <= i < j < rows.len() ==> !ranks_before(#[trigger] rows[j], #[trigger] rows[i])
}

/// Of two strings one comes before the other, unless they are equal; and
/// never both.
pub proof fn lemma_text_order(a: Seq<char>, b: Seq<char>)
    ensures
        text_lt(a, b) || a == b || text_lt(b, a),
        !(text_lt(a, b) && text_lt(b, a)),
        !(text_lt(a, b) && a == b),
    decreases a.len(),
{
    if a.len() > 0 && b.len() > 0 {
        if a[0] == b[0] {
            lemma_text_order(a.drop_first(), b.drop_first());
            if a.drop_first() == b.drop_first() {
                assert(b =~= seq![b[0]] + b.drop_first());
            }
        }
    }
}

/// What comes before a string comes before everything after it.
pub proof fn lemma_text_lt_transitive(a: Seq<char>, b: Seq<char>, c: Seq<char>)
    requires
        text_lt(a, b),
        text_lt(b, c),
    ensures
        text_lt(a, c),
    decreases a.len(),
{
    if a.len() > 0 {
        if a[0] == b[0] && b[0] == c[0] {
            lemma_text_lt_transitive(a.drop_first(), b.drop_first(), c.drop_first());
        }
    }
}

/// The order of showing is a strict order up to ties: of two records one is
/// shown before the other unless they tie, never both, and what is shown
/// before a record is shown before everything after it.
pub proof fn lemma_rank_order(a: Record, b: Record, c: Record)
    ensures
        ranks_before(a, b) || ties(a, b) || ranks_before(b, a),
        !(ranks_before(a, b) && ranks_before(b, a)),
        !(ranks_before(a, b) && ties(a, b)),
        ranks_before(a, b) && ranks_before(b, c) ==> ranks_before(a, c),
        ties(a, b) && ranks_before(b, c) ==> ranks_before(a, c),
        ranks_before(a, b) && ties(b, c) ==> ranks_before(a, c),
{
    lemma_text_order(a.owner, b.owner);
    lemma_text_order(a.repo, b.repo);
    if ranks_before(a, b) && ranks_before(b, c) {
        if a.stars == b.stars && b.stars == c.stars {
            if text_lt(a.owner, b.owner) && text_lt(b.owner, c.owner) {
                lemma_text_lt_transitive(a.owner, b.owner, c.owner);
            } else if a.owner == b.owner && b.owner == c.owner {
                lemma_text_lt_transitive(a.repo, b.repo, c.repo);
            }
        }
    }
}

/// `str::cmp`: strings are ordered by their bytes, which in UTF-8 is the
/// order of their code points.
#[verifier::external_body]
fn compare_text(a: &str, b: &str) -> (res: Ordering)
    ensures
        match res {
            Ordering::Less => text_lt(a@, b@),
            Ordering::Equal => a@ == b@,
            Ordering::Greater => text_lt(b@, a@),
        },
{
    a.cmp(b)
}

/// Which of two records is shown first.
pub fn rank_order(a: &Dependent, b: &Dependent) -> (res: Ordering)
    ensures
        match res {
            Ordering::Less => ranks_before(a@, b@),
            Ordering::Equal => ties(a@, b@),
            Ordering::Greater => ranks_before(b@, a@),
        },
{
    if a.stars > b.stars {
        Ordering::Less
    } else if a.stars < b.stars {
        Ordering::Greater
    } else {
        match compare_text(a.owner.as_str(), b.owner.as_str()) {
            Ordering::Less => Ordering::Less,
            Ordering::Equal => compare_text(a.repo.as_str(), b.repo.as_str()),
            Ordering::Greater => Ordering::Greater,
        }
    }
}

/// `slice::sort_unstable_by` with [`rank_order`]: the same rows, in the
/// order of showing. Rows that tie may change places. The sort asks for a
/// comparison that is a total order, which [`lemma_rank_order`] shows of
/// this one.
#[verifier::external_body]
fn sort_by_rank(rows: &mut Vec<Dependent>)
    ensures
        final(rows)@.to_multiset() == old(rows)@.to_multiset(),
        ranked(final(rows).deep_view()),
{
    rows.sort_unstable_by(|a, b| rank_order(a, b))
}

/// Puts `rows` in the order of showing.
pub fn rank(rows: &mut Vec<Dependent>)
    ensures
        final(rows)@.to_multiset() == old(rows)@.to_multiset(),
        final(rows)@.len() == old(rows)@.len(),
        ranked(final(rows).deep_view()),
{
    sort_by_rank(rows);
    proof {
        old(rows)@.to_multiset_ensures();
        rows@.to_multiset_ensures();
    }
}

/// How many rows are shown where `top` are asked for and `len` are there.
pub fn shown(top: usize, len: usize) -> (res: usize)
    ensures
        res <= top,
        res <= len,
        res == top || res == len,
{
    if top < len {
        top
    } else {
        len
    }
}

} // verus!
