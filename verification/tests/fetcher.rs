use std::cell::RefCell;

use depstalk::fetcher::{check_reply, FetchError, Fetcher, HttpReply, State};

const BASE: &str = "https://github.com/tokio-rs/tokio/network/dependents";

fn row(owner: &str, repo: &str, stars: &str) -> String {
    format!(
        r#"<div data-test-id="dg-repo-pkg-dependent">
             <a data-hovercard-type="user" href="/{owner}">{owner}</a> /
             <a data-hovercard-type="repository" href="/{owner}/{repo}">{repo}</a>
             <span><svg class="octicon octicon-star"></svg> {stars} </span>
             <span><svg class="octicon octicon-repo-forked"></svg> 0 </span>
           </div>"#
    )
}

fn page(rows: &[String], next: Option<&str>) -> String {
    let pager = match next {
        Some(url) => format!(r#"<a href="{url}">Next</a>"#),
        None => "<button disabled>Next</button>".to_string(),
    };
    format!(
        r#"<html><body><div>{}</div><div class="paginate-container"><div>{pager}</div></div></body></html>"#,
        rows.concat()
    )
}

fn ok(body: String) -> Result<HttpReply, String> {
    Ok(HttpReply { status: 200, body })
}

fn names(state: &State) -> Vec<String> {
    state.dependents.iter().map(|d| format!("{}/{}", d.owner, d.repo)).collect()
}

#[test]
fn reply_of_success_gives_its_body() {
    for status in [200, 201, 204, 299] {
        match check_reply(Ok(HttpReply { status, body: "text".to_string() })) {
            Ok(body) => assert_eq!(body, "text"),
            Err(error) => panic!("{status} gave {error:?}"),
        }
    }
}

#[test]
fn reply_of_another_status_is_an_error() {
    for status in [0, 100, 199, 300, 301, 404, 429, 500, 503, 65535] {
        match check_reply(Ok(HttpReply { status, body: "text".to_string() })) {
            Err(FetchError::Status(code)) => assert_eq!(code, status),
            other => panic!("{status} gave {other:?}"),
        }
    }
}

#[test]
fn failed_request_is_an_error() {
    match check_reply(Err("connection refused".to_string())) {
        Err(FetchError::Transport(reason)) => assert_eq!(reason, "connection refused"),
        other => panic!("gave {other:?}"),
    }
}

#[test]
fn fetcher_crawls_over_its_transport() {
    let asked = RefCell::new(Vec::new());
    let transport = |url: &str| {
        asked.borrow_mut().push(url.to_string());
        match url {
            BASE => ok(page(&[row("a", "one", "1,500"), row("b", "two", "4")], Some("https://host/page-2"))),
            "https://host/page-2" => ok(page(&[row("c", "three", "3")], None)),
            _ => Ok(HttpReply { status: 404, body: String::new() }),
        }
    };
    let fetcher = Fetcher::new(transport).unwrap();
    let mut state = State::new(BASE.to_string());
    assert!(fetcher.fetch_pages(&mut state, 20).is_ok());
    assert_eq!(*asked.borrow(), vec![BASE, "https://host/page-2"]);
    assert_eq!(names(&state), vec!["a/one", "b/two", "c/three"]);
    assert_eq!(state.dependents[0].stars, 1500);
    assert_eq!(state.chunks.len(), 1);
    assert_eq!(state.chunks[0].first_row.owner, "a");
    assert_eq!(state.chunks[0].next_page, None);

    // Nothing has changed: the next session reads one page and adds nothing.
    asked.borrow_mut().clear();
    assert!(fetcher.fetch_pages(&mut state, 20).is_ok());
    assert_eq!(*asked.borrow(), vec![BASE]);
    assert_eq!(names(&state), vec!["a/one", "b/two", "c/three"]);
    assert_eq!(state.chunks.len(), 1);
}

#[test]
fn fetcher_stops_at_its_limit() {
    let asked = RefCell::new(0usize);
    let transport = |url: &str| {
        *asked.borrow_mut() += 1;
        let n: usize = url.rsplit('=').next().and_then(|t| t.parse().ok()).unwrap_or(0);
        ok(page(&[row("owner", &format!("repo{n}"), "1")], Some(&format!("https://host/list?page={}", n + 1))))
    };
    let fetcher = Fetcher::new(transport).unwrap();
    let mut state = State::new(BASE.to_string());
    assert!(fetcher.fetch_pages(&mut state, 3).is_ok());
    assert_eq!(*asked.borrow(), 3);
    assert_eq!(names(&state), vec!["owner/repo0", "owner/repo1", "owner/repo2"]);
    assert_eq!(state.chunks.len(), 1);
    assert_eq!(state.chunks[0].first_row.repo, "repo0");
    assert_eq!(state.chunks[0].next_page, Some("https://host/list?page=3".to_string()));
}

#[test]
fn bad_status_ends_the_session() {
    let transport = |url: &str| match url {
        BASE => ok(page(&[row("a", "one", "5")], Some("https://host/page-2"))),
        _ => Ok(HttpReply { status: 429, body: page(&[row("z", "no", "1")], None) }),
    };
    let fetcher = Fetcher::new(transport).unwrap();
    let mut state = State::new(BASE.to_string());
    match fetcher.fetch_pages(&mut state, 20) {
        Err(FetchError::Status(code)) => assert_eq!(code, 429),
        other => panic!("gave {other:?}"),
    }
    assert_eq!(names(&state), vec!["a/one"]);
    assert_eq!(state.chunks.len(), 1);
    assert_eq!(state.chunks[0].first_row.owner, "a");
    assert_eq!(state.chunks[0].next_page, Some("https://host/page-2".to_string()));
}

#[test]
fn failed_request_ends_the_session() {
    let transport = |_: &str| Err("dns error".to_string());
    let fetcher = Fetcher::new(transport).unwrap();
    let mut state = State::new(BASE.to_string());
    match fetcher.fetch_pages(&mut state, 20) {
        Err(FetchError::Transport(reason)) => assert_eq!(reason, "dns error"),
        other => panic!("gave {other:?}"),
    }
    assert!(state.dependents.is_empty());
    assert!(state.chunks.is_empty());
}

#[test]
fn no_pages_means_no_request() {
    let asked = RefCell::new(0usize);
    let transport = |_: &str| {
        *asked.borrow_mut() += 1;
        ok(String::new())
    };
    let fetcher = Fetcher::new(transport).unwrap();
    let mut state = State::new(BASE.to_string());
    assert!(fetcher.fetch_pages(&mut state, 0).is_ok());
    assert_eq!(*asked.borrow(), 0);
    assert!(state.dependents.is_empty());
    assert!(state.chunks.is_empty());
}
