use depstalk::count::parse_count;
use depstalk::extractor::Dependent;
use depstalk::report::{append_number, heading, row_line};

fn written(n: usize) -> String {
    let mut text = String::new();
    append_number(&mut text, n);
    text
}

#[test]
fn numbers_are_written_in_base_ten() {
    assert_eq!(written(0), "0");
    assert_eq!(written(7), "7");
    assert_eq!(written(9), "9");
    assert_eq!(written(10), "10");
    assert_eq!(written(11), "11");
    assert_eq!(written(100), "100");
    assert_eq!(written(1090), "1090");
    assert_eq!(written(1234567890), "1234567890");
    assert_eq!(written(usize::MAX), usize::MAX.to_string());
}

#[test]
fn number_goes_after_what_is_there() {
    let mut text = String::from("n = ");
    append_number(&mut text, 42);
    append_number(&mut text, 0);
    assert_eq!(text, "n = 420");
}

#[test]
fn what_is_written_can_be_read_again() {
    for n in [0usize, 1, 9, 10, 99, 100, 12345, 1_000_000, usize::MAX - 1, usize::MAX] {
        assert_eq!(parse_count(&written(n)), Some(n));
        assert_eq!(written(n), n.to_string());
    }
}

#[test]
fn line_shows_names_and_stars() {
    let row = Dependent { owner: "rust-lang".into(), repo: "cargo".into(), stars: 12345, forks: 678 };
    assert_eq!(row_line(&row), "- rust-lang/cargo (12345 stars)");
    let row = Dependent { owner: "".into(), repo: "".into(), stars: 0, forks: 0 };
    assert_eq!(row_line(&row), "- / (0 stars)");
    let row = Dependent { owner: "ünï".into(), repo: "cödé".into(), stars: 1, forks: 0 };
    assert_eq!(row_line(&row), "- ünï/cödé (1 stars)");
}

#[test]
fn heading_says_how_many_are_shown() {
    assert_eq!(
        heading(10, "tokio-rs/tokio", 250),
        "Top 10 dependents of `tokio-rs/tokio` (out of 250 scraped):"
    );
    assert_eq!(heading(0, "a/b", 0), "Top 0 dependents of `a/b` (out of 0 scraped):");
}
