use microbe::parser::get_posts;
use microbe::parser::read_timestamp_token;
use microbe::parser::read_token_timestamp;
use microbe::parser::starts_record;
use microbe::parser::trim_content;
use microbe::parser::ParseError;

fn lines(text: &[&str]) -> Vec<String> {
    text.iter().map(|line| line.to_string()).collect()
}

#[test]
fn two_content_lines_are_joined_by_one_space() {
    let posts = get_posts(&lines(&["@@ 2021-01-01T00:00:00+00:00", "Hello", "World"])).unwrap();
    assert_eq!(posts.len(), 1);
    assert_eq!(posts[0].content, "Hello World");
    assert_eq!(posts[0].timestamp, 1_609_459_200);
}

#[test]
fn sample_log_gives_two_posts_in_order() {
    let posts = get_posts(&lines(&[
        "@@ 2021-01-01T00:00:00+00:00",
        "First line of a post.",
        "Second line, still same post.",
        "@@ 2021-01-02T08:30:00+00:00",
        "A different post.",
    ]))
    .unwrap();
    assert_eq!(posts.len(), 2);
    assert_eq!(posts[0].content, "First line of a post. Second line, still same post.");
    assert_eq!(posts[0].timestamp, 1_609_459_200);
    assert_eq!(posts[1].content, "A different post.");
    assert_eq!(posts[1].timestamp, 1_609_576_200);
}

#[test]
fn posts_are_not_sorted_by_time() {
    let posts = get_posts(&lines(&[
        "@@ 2021-01-02T08:30:00+00:00",
        "later",
        "@@ 2021-01-01T00:00:00+00:00",
        "earlier",
        "@@ 2021-01-02T08:30:00+00:00",
        "later again",
    ]))
    .unwrap();
    let times: Vec<i64> = posts.iter().map(|post| post.timestamp).collect();
    assert_eq!(times, vec![1_609_576_200, 1_609_459_200, 1_609_576_200]);
    let contents: Vec<&str> = posts.iter().map(|post| post.content.as_str()).collect();
    assert_eq!(contents, vec!["later", "earlier", "later again"]);
}

#[test]
fn unterminated_post_is_finished_at_the_end() {
    let posts = get_posts(&lines(&["@@ 1970-01-01T00:00:00+00:00", "still open"])).unwrap();
    assert_eq!(posts.len(), 1);
    assert_eq!(posts[0].content, "still open");
    assert_eq!(posts[0].timestamp, 0);
}

#[test]
fn empty_log_gives_no_posts() {
    assert_eq!(get_posts(&Vec::new()).unwrap().len(), 0);
}

#[test]
fn content_before_the_first_record_is_dropped() {
    let posts = get_posts(&lines(&["stray", "lines", "@@ 1970-01-01T00:00:10+00:00", "kept"])).unwrap();
    assert_eq!(posts.len(), 1);
    assert_eq!(posts[0].content, "kept");
    assert_eq!(posts[0].timestamp, 10);
    assert_eq!(get_posts(&lines(&["only", "stray"])).unwrap().len(), 0);
}

#[test]
fn record_without_body_has_empty_content() {
    let posts = get_posts(&lines(&["@@ 1970-01-01T00:00:01+00:00", "@@ 1970-01-01T00:00:02+00:00"])).unwrap();
    assert_eq!(posts.len(), 2);
    assert_eq!(posts[0].content, "");
    assert_eq!(posts[0].timestamp, 1);
    assert_eq!(posts[1].content, "");
    assert_eq!(posts[1].timestamp, 2);
}

#[test]
fn empty_content_line_still_adds_its_space() {
    let posts = get_posts(&lines(&["@@ 1970-01-01T00:00:00+00:00", "a", "", "b"])).unwrap();
    assert_eq!(posts[0].content, "a  b");
}

#[test]
fn offset_is_brought_to_utc() {
    let posts = get_posts(&lines(&["@@ 1970-01-01T02:00:00+02:00", "x"])).unwrap();
    assert_eq!(posts[0].timestamp, 0);
    let posts = get_posts(&lines(&["@@ 1969-12-31T23:59:59Z", "x"])).unwrap();
    assert_eq!(posts[0].timestamp, -1);
}

#[test]
fn words_after_the_timestamp_are_ignored() {
    let posts = get_posts(&lines(&["@@ 1970-01-01T00:01:00+00:00 trailing words", "x"])).unwrap();
    assert_eq!(posts.len(), 1);
    assert_eq!(posts[0].timestamp, 60);
    assert_eq!(posts[0].content, "x");
}

#[test]
fn marker_without_space_is_content() {
    let posts = get_posts(&lines(&["@@ 1970-01-01T00:00:00+00:00", "@@", "@@x", "@ @"])).unwrap();
    assert_eq!(posts.len(), 1);
    assert_eq!(posts[0].content, "@@ @@x @ @");
}

#[test]
fn malformed_timestamp_stops_the_run() {
    let result = get_posts(&lines(&["@@ 1970-01-01T00:00:00+00:00", "fine", "@@ yesterday", "lost"]));
    match result {
        Err(ParseError::MalformedTimestamp { line_number, line }) => {
            assert_eq!(line_number, 3);
            assert_eq!(line, "@@ yesterday");
        }
        Ok(_) => panic!("a malformed timestamp was accepted"),
    }
}

#[test]
fn first_malformed_line_is_reported() {
    let result = get_posts(&lines(&["@@ bad-one", "@@ bad-two"]));
    match result {
        Err(ParseError::MalformedTimestamp { line_number, line }) => {
            assert_eq!(line_number, 1);
            assert_eq!(line, "@@ bad-one");
        }
        Ok(_) => panic!("a malformed timestamp was accepted"),
    }
}

#[test]
fn missing_timestamp_stops_the_run() {
    for bad in ["@@ ", "@@  1970-01-01T00:00:00+00:00"] {
        match get_posts(&lines(&[bad])) {
            Err(ParseError::MalformedTimestamp { line_number, line }) => {
                assert_eq!(line_number, 1);
                assert_eq!(line, bad);
            }
            Ok(_) => panic!("a missing timestamp was accepted"),
        }
    }
}

#[test]
fn record_start_is_marker_and_space() {
    assert!(starts_record("@@ 2021-01-01T00:00:00+00:00"));
    assert!(starts_record("@@ "));
    assert!(!starts_record("@@"));
    assert!(!starts_record(""));
    assert!(!starts_record(" @@ x"));
    assert!(!starts_record("@@\t"));
    assert!(!starts_record("hello"));
}

#[test]
fn token_ends_at_the_next_space() {
    assert_eq!(read_timestamp_token("@@ abc def"), "abc");
    assert_eq!(read_timestamp_token("@@ abc"), "abc");
    assert_eq!(read_timestamp_token("@@ "), "");
    assert_eq!(read_timestamp_token("@@  abc"), "");
    assert_eq!(read_timestamp_token("@@ \u{e9}t\u{e9} x"), "\u{e9}t\u{e9}");
}

#[test]
fn token_timestamp_reads_rfc3339() {
    assert_eq!(read_token_timestamp("1970-01-01T00:00:00+00:00"), Some(0));
    assert_eq!(read_token_timestamp("2021-01-02T08:30:00+00:00"), Some(1_609_576_200));
    assert_eq!(read_token_timestamp("2021-01-02T08:30:00.750+00:00"), Some(1_609_576_200));
    assert_eq!(read_token_timestamp(""), None);
    assert_eq!(read_token_timestamp("2021-13-02T08:30:00+00:00"), None);
    assert_eq!(read_token_timestamp("1609576200"), None);
}

#[test]
fn trim_takes_one_character_away() {
    assert_eq!(trim_content("Hello World ".to_string()), "Hello World");
    assert_eq!(trim_content("a  ".to_string()), "a ");
    assert_eq!(trim_content("".to_string()), "");
    assert_eq!(trim_content("\u{e9} ".to_string()), "\u{e9}");
}
