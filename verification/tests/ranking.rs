use std::cmp::Ordering;

use depstalk::extractor::Dependent;
use depstalk::ranking::{rank, rank_order, shown};

fn dep(owner: &str, repo: &str, stars: usize, forks: usize) -> Dependent {
    Dependent { owner: owner.to_string(), repo: repo.to_string(), stars, forks }
}

fn key(d: &Dependent) -> (std::cmp::Reverse<usize>, String, String) {
    (std::cmp::Reverse(d.stars), d.owner.clone(), d.repo.clone())
}

#[test]
fn more_stars_come_first() {
    assert_eq!(rank_order(&dep("z", "z", 10, 0), &dep("a", "a", 9, 0)), Ordering::Less);
    assert_eq!(rank_order(&dep("a", "a", 9, 0), &dep("z", "z", 10, 0)), Ordering::Greater);
}

#[test]
fn equal_stars_go_by_owner_then_repository() {
    assert_eq!(rank_order(&dep("a", "z", 5, 0), &dep("b", "a", 5, 0)), Ordering::Less);
    assert_eq!(rank_order(&dep("b", "a", 5, 0), &dep("a", "z", 5, 0)), Ordering::Greater);
    assert_eq!(rank_order(&dep("a", "x", 5, 0), &dep("a", "y", 5, 0)), Ordering::Less);
    assert_eq!(rank_order(&dep("a", "y", 5, 0), &dep("a", "x", 5, 0)), Ordering::Greater);
}

#[test]
fn forks_play_no_part_in_the_order() {
    assert_eq!(rank_order(&dep("a", "x", 5, 1), &dep("a", "x", 5, 900)), Ordering::Equal);
}

#[test]
fn names_are_ordered_by_code_point() {
    // A name comes before every name that it begins.
    assert_eq!(rank_order(&dep("ab", "x", 1, 0), &dep("abc", "x", 1, 0)), Ordering::Less);
    assert_eq!(rank_order(&dep("", "x", 1, 0), &dep("a", "x", 1, 0)), Ordering::Less);
    // Capitals come before small letters, and both before what is not ASCII.
    assert_eq!(rank_order(&dep("Zed", "x", 1, 0), &dep("alpha", "x", 1, 0)), Ordering::Less);
    assert_eq!(rank_order(&dep("zed", "x", 1, 0), &dep("éclair", "x", 1, 0)), Ordering::Less);
    assert_eq!(rank_order(&dep("é", "x", 1, 0), &dep("日本", "x", 1, 0)), Ordering::Less);
    assert_eq!(rank_order(&dep("\u{ffff}", "x", 1, 0), &dep("\u{10000}", "x", 1, 0)), Ordering::Less);
    assert_eq!(rank_order(&dep("a-b", "x", 1, 0), &dep("a_b", "x", 1, 0)), Ordering::Less);
}

#[test]
fn order_agrees_with_the_standard_library() {
    let rows = [
        dep("a", "b", 1, 0),
        dep("a", "b", 2, 0),
        dep("a", "c", 1, 0),
        dep("b", "a", 1, 0),
        dep("", "", 0, 0),
        dep("A", "b", 1, 0),
        dep("aa", "b", 1, 0),
        dep("ä", "b", 1, 0),
        dep("a", "", 1, 0),
        dep("a", "b", usize::MAX, 0),
    ];
    for a in &rows {
        for b in &rows {
            assert_eq!(rank_order(a, b), key(a).cmp(&key(b)), "for {a:?} and {b:?}");
        }
    }
}

#[test]
fn rows_are_put_in_order() {
    let mut rows = vec![
        dep("carol", "lib", 3, 0),
        dep("alice", "app", 50, 0),
        dep("bob", "tool", 3, 0),
        dep("bob", "kit", 3, 0),
        dep("dave", "cli", 1000, 0),
        dep("erin", "web", 0, 0),
    ];
    rank(&mut rows);
    let names: Vec<String> = rows.iter().map(|d| format!("{}/{} {}", d.owner, d.repo, d.stars)).collect();
    assert_eq!(
        names,
        vec!["dave/cli 1000", "alice/app 50", "bob/kit 3", "bob/tool 3", "carol/lib 3", "erin/web 0"]
    );
}

#[test]
fn ranking_keeps_every_row() {
    let mut rows = vec![dep("a", "x", 1, 7), dep("a", "x", 1, 8), dep("a", "x", 2, 9), dep("a", "x", 1, 7)];
    rank(&mut rows);
    assert_eq!(rows.len(), 4);
    assert_eq!(rows[0].forks, 9);
    let mut forks: Vec<usize> = rows.iter().map(|d| d.forks).collect();
    forks.sort();
    assert_eq!(forks, vec![7, 7, 8, 9]);
}

#[test]
fn ranking_nothing_is_nothing() {
    let mut rows: Vec<Dependent> = Vec::new();
    rank(&mut rows);
    assert!(rows.is_empty());
    let mut one = vec![dep("a", "x", 1, 0)];
    rank(&mut one);
    assert_eq!(one.len(), 1);
    assert_eq!(one[0].owner, "a");
}

#[test]
fn no_more_rows_are_shown_than_there_are() {
    assert_eq!(shown(10, 3), 3);
    assert_eq!(shown(10, 10), 10);
    assert_eq!(shown(10, 250), 10);
    assert_eq!(shown(0, 250), 0);
    assert_eq!(shown(5, 0), 0);
    assert_eq!(shown(usize::MAX, 7), 7);
}
