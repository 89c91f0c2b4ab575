use std::path::{Path, PathBuf};

use depstalk::extractor::Dependent;
use depstalk::fetcher::{FetchChunk, State};
use depstalk::loader::{normalize_args, Loader};

#[test]
fn args_give_file_and_first_page() {
    let (path, base_url) = normalize_args(Path::new("/var/cache"), "tokio-rs/tokio");
    assert_eq!(path, PathBuf::from("/var/cache/tokio_rs_tokio.json"));
    assert_eq!(base_url, "https://github.com/tokio-rs/tokio/network/dependents");
}

#[test]
fn file_name_keeps_letters_and_digits_only() {
    let (path, _) = normalize_args(Path::new("."), "Ab9/x.y_z-w é");
    assert_eq!(path, Path::new(".").join("Ab9_x_y_z_w__.json"));
    let (path, _) = normalize_args(Path::new("dir"), "");
    assert_eq!(path, Path::new("dir").join(".json"));
    let (path, _) = normalize_args(Path::new("dir"), "@[`{/:");
    assert_eq!(path, Path::new("dir").join("______.json"));
    let (path, _) = normalize_args(Path::new("dir"), "azAZ09");
    assert_eq!(path, Path::new("dir").join("azAZ09.json"));
}

#[test]
fn file_name_is_what_the_standard_library_makes() {
    for repo in ["serde-rs/serde", "a/b", "weird name/ü.rs", "A_B/c+d", "../..", "x"] {
        let mut name = repo.replace(|c: char| !c.is_ascii_alphanumeric(), "_");
        name.push_str(".json");
        let (path, base_url) = normalize_args(Path::new("/tmp/state"), repo);
        assert_eq!(path, Path::new("/tmp/state").join(name));
        assert_eq!(base_url, format!("https://github.com/{repo}/network/dependents"));
    }
}

#[test]
fn first_page_takes_the_name_as_it_is() {
    let (_, base_url) = normalize_args(Path::new("."), "a b/ç");
    assert_eq!(base_url, "https://github.com/a b/ç/network/dependents");
}

#[test]
fn new_loader_starts_from_nothing() {
    let loader = Loader::new(Path::new("/data"), "rust-lang/rust");
    assert_eq!(loader.path, PathBuf::from("/data/rust_lang_rust.json"));
    assert_eq!(loader.state.base_url, "https://github.com/rust-lang/rust/network/dependents");
    assert!(loader.state.chunks.is_empty());
    assert!(loader.state.dependents.is_empty());
}

#[test]
fn missing_file_means_a_new_state() {
    let loader = Loader::load_or_create(Path::new("/data"), "rust-lang/rust", None).unwrap();
    assert_eq!(loader.path, PathBuf::from("/data/rust_lang_rust.json"));
    assert_eq!(loader.state.base_url, "https://github.com/rust-lang/rust/network/dependents");
    assert!(loader.state.chunks.is_empty());
    assert!(loader.state.dependents.is_empty());
}

fn stored(base_url: &str) -> State {
    let row = |stars| Dependent {
        owner: "servo".to_string(),
        repo: "servo".to_string(),
        stars,
        forks: 3,
    };
    State {
        base_url: base_url.to_string(),
        chunks: vec![FetchChunk { first_row: row(10), next_page: Some("after".to_string()) }],
        dependents: vec![row(10)],
    }
}

#[test]
fn stored_state_of_the_same_listing_is_taken() {
    let state = stored("https://github.com/rust-lang/rust/network/dependents");
    let loader = Loader::load_or_create(Path::new("/data"), "rust-lang/rust", Some(state)).unwrap();
    assert_eq!(loader.path, PathBuf::from("/data/rust_lang_rust.json"));
    assert_eq!(loader.state.base_url, "https://github.com/rust-lang/rust/network/dependents");
    assert_eq!(loader.state.dependents.len(), 1);
    assert_eq!(loader.state.dependents[0].stars, 10);
    assert_eq!(loader.state.chunks.len(), 1);
    assert_eq!(loader.state.chunks[0].next_page, Some("after".to_string()));
}

#[test]
fn stored_state_of_another_listing_is_refused() {
    let state = stored("https://github.com/rust-lang/cargo/network/dependents");
    let mismatch =
        Loader::load_or_create(Path::new("/data"), "rust-lang/rust", Some(state)).unwrap_err();
    assert_eq!(mismatch.expected, "https://github.com/rust-lang/rust/network/dependents");
    assert_eq!(mismatch.found, "https://github.com/rust-lang/cargo/network/dependents");
}

#[test]
fn names_that_share_a_file_are_told_apart() {
    // `a-b/c` and `a/b-c` are kept in the same file.
    let (one, _) = normalize_args(Path::new("/data"), "a-b/c");
    let (other, _) = normalize_args(Path::new("/data"), "a/b-c");
    assert_eq!(one, other);
    let state = stored("https://github.com/a-b/c/network/dependents");
    assert!(Loader::load_or_create(Path::new("/data"), "a/b-c", Some(state)).is_err());
}
