use microbe::post::slug_from_parts;
use microbe::post::urn_from_id;
use microbe::post::Post;
use microbe::text::decimal_string;
use microbe::text::digits_string;
use microbe::time::is_in_rfc2822_span;
use microbe::time::is_in_span;
use microbe::time::MAX_EPOCH_SECONDS;
use microbe::time::MAX_RFC2822_SECONDS;
use microbe::time::MIN_EPOCH_SECONDS;
use microbe::time::MIN_RFC2822_SECONDS;

fn post(content: &str, timestamp: i64) -> Post {
    Post { content: content.to_string(), timestamp }
}

#[test]
fn stable_id_of_the_epoch() {
    assert_eq!(post("Hello World, how are you today?", 0).stable_id(), "035c4ea0-d73b-5bde-bd6f-c806b04f2ec3");
}

#[test]
fn stable_id_ignores_content() {
    assert_eq!(post("one thing", 1_609_459_200).stable_id(), post("another", 1_609_459_200).stable_id());
    assert_eq!(post("", 0).stable_id(), "035c4ea0-d73b-5bde-bd6f-c806b04f2ec3");
}

#[test]
fn stable_id_follows_the_time() {
    assert_ne!(post("same", 0).stable_id(), post("same", 1).stable_id());
    let expected = uuid::Uuid::new_v5(&uuid::Uuid::NAMESPACE_URL, b"1609459200").to_string();
    assert_eq!(post("same", 1_609_459_200).stable_id(), expected);
    assert_eq!(post("same", 1_609_459_200).stable_id(), "bc5f56a9-88ff-58db-83de-58e92a6b0627");
    assert_eq!(post("same", 1).stable_id(), "b80c8fef-a677-5340-85fb-2c162d75df03");
    let before = uuid::Uuid::new_v5(&uuid::Uuid::NAMESPACE_URL, b"-86400").to_string();
    assert_eq!(post("same", -86_400).stable_id(), before);
}

#[test]
fn stable_id_is_the_same_on_every_call() {
    let p = post("x", 42);
    assert_eq!(p.stable_id(), p.stable_id());
}

#[test]
fn slug_of_the_example() {
    assert_eq!(post("Hello World, how are you today?", 0).slug(), "0_hello-world-how-are-you");
}

#[test]
fn slug_is_the_same_on_every_call() {
    let p = post("Some text, twice derived", 1_609_459_200);
    assert_eq!(p.slug(), p.slug());
    assert_eq!(p.slug(), "1609459200_some-text-twice-derived");
}

#[test]
fn slug_fragment_is_cut_to_the_cap() {
    let p = post("abcdefghijklmnopqrstuvwxyz0123456789", 7);
    assert_eq!(p.slug_fragment(), "abcdefghijklmnopqrstuvwx");
    assert_eq!(p.slug_fragment().len(), 24);
    assert_eq!(p.slug(), "7_abcdefghijklmnopqrstuvwx");
}

#[test]
fn slug_fragment_collapses_and_trims() {
    assert_eq!(post("  --Hello,   World!!  ", 0).slug_fragment(), "hello-world");
    assert_eq!(post("UPPER lower 123", 0).slug_fragment(), "upper-lower-123");
}

#[test]
fn slug_of_empty_content() {
    assert_eq!(post("", 5).slug(), "5_");
    assert_eq!(post("!!!", 5).slug(), "5_");
}

#[test]
fn slug_of_a_time_before_the_epoch() {
    assert_eq!(post("old news", -86_400).slug(), "-86400_old-news");
}

#[test]
fn slug_from_parts_joins_with_an_underscore() {
    assert_eq!(slug_from_parts(12, "a-b"), "12_a-b");
    assert_eq!(slug_from_parts(-3, ""), "-3_");
}

#[test]
fn urn_has_the_uuid_prefix() {
    assert_eq!(urn_from_id("035c4ea0-d73b-5bde-bd6f-c806b04f2ec3"), "urn:uuid:035c4ea0-d73b-5bde-bd6f-c806b04f2ec3");
    assert_eq!(urn_from_id(""), "urn:uuid:");
}

#[test]
fn decimal_text_of_integers() {
    assert_eq!(decimal_string(0), "0");
    assert_eq!(decimal_string(7), "7");
    assert_eq!(decimal_string(10), "10");
    assert_eq!(decimal_string(-1), "-1");
    assert_eq!(decimal_string(1_234_567_890), "1234567890");
    assert_eq!(decimal_string(i64::MAX), "9223372036854775807");
    assert_eq!(decimal_string(i64::MIN), "-9223372036854775808");
    assert_eq!(digits_string(0), "0");
    assert_eq!(digits_string(9), "9");
    assert_eq!(digits_string(u64::MAX), "18446744073709551615");
    assert_eq!(digits_string(1_000), "1000");
}

#[test]
fn new_post_needs_a_time_in_the_span() {
    assert!(Post::new("x".to_string(), MIN_EPOCH_SECONDS - 1).is_none());
    assert!(Post::new("x".to_string(), MAX_EPOCH_SECONDS + 1).is_none());
    assert!(Post::new("x".to_string(), i64::MIN).is_none());
    assert!(Post::new("x".to_string(), i64::MAX).is_none());
    let p = Post::new("x".to_string(), 17).unwrap();
    assert_eq!(p.content, "x");
    assert_eq!(p.timestamp, 17);
}

#[test]
fn posts_at_the_ends_of_the_span_render() {
    let first = Post::new("x".to_string(), MIN_EPOCH_SECONDS).unwrap();
    let last = Post::new("x".to_string(), MAX_EPOCH_SECONDS).unwrap();
    assert_eq!(first.stable_id().len(), 36);
    assert_eq!(last.stable_id().len(), 36);
    assert!(first.as_json().contains("\"date_published\": \"-262143-01-01T00:00:00+00:00\""));
    assert!(last.as_json().contains("\"date_published\": \"+262142-12-31T23:59:59+00:00\""));
    assert!(first.as_rss("h").starts_with("<item>"));
    assert!(last.as_atom().starts_with("<entry>"));
}

#[test]
fn span_checks() {
    assert!(is_in_span(0));
    assert!(is_in_span(MIN_EPOCH_SECONDS));
    assert!(is_in_span(MAX_EPOCH_SECONDS));
    assert!(!is_in_span(MIN_EPOCH_SECONDS - 1));
    assert!(!is_in_span(MAX_EPOCH_SECONDS + 1));
    assert!(is_in_rfc2822_span(0));
    assert!(is_in_rfc2822_span(MIN_RFC2822_SECONDS));
    assert!(is_in_rfc2822_span(MAX_RFC2822_SECONDS));
    assert!(!is_in_rfc2822_span(MIN_RFC2822_SECONDS - 1));
    assert!(!is_in_rfc2822_span(MAX_RFC2822_SECONDS + 1));
    assert_eq!(MIN_RFC2822_SECONDS, -62_167_219_200);
    assert_eq!(MAX_RFC2822_SECONDS, 253_402_300_799);
}

#[test]
fn span_is_the_span_of_the_calendar() {
    assert_eq!(chrono::DateTime::<chrono::Utc>::MIN_UTC.timestamp(), MIN_EPOCH_SECONDS);
    assert_eq!(chrono::DateTime::<chrono::Utc>::MAX_UTC.timestamp(), MAX_EPOCH_SECONDS);
    assert!(chrono::DateTime::from_timestamp(MIN_EPOCH_SECONDS - 1, 0).is_none());
    assert!(chrono::DateTime::from_timestamp(MAX_EPOCH_SECONDS + 1, 0).is_none());
}

#[test]
fn slug_fragment_is_tidy_after_the_cut() {
    let p = post("abcdefghijklmnopqrstuvw yz", 0);
    assert_eq!(p.slug_fragment(), "abcdefghijklmnopqrstuvw");
    let q = post("a -- b ?? c", 0);
    assert_eq!(q.slug_fragment(), "a-b-c");
    let r = post("\u{c6}\u{fa}\u{171}--cool?", 3);
    assert_eq!(r.slug(), "3_aeuu-cool");
}

#[test]
fn stable_id_has_the_shape_of_a_version_5_uuid() {
    for timestamp in [0, 1, -1, 1_609_459_200, i64::MIN, i64::MAX] {
        let id = post("x", timestamp).stable_id();
        let chars: Vec<char> = id.chars().collect();
        assert_eq!(chars.len(), 36);
        for (i, c) in chars.iter().enumerate() {
            if i == 8 || i == 13 || i == 18 || i == 23 {
                assert_eq!(*c, '-');
            } else {
                assert!(matches!(*c, '0'..='9' | 'a'..='f'));
            }
        }
        assert_eq!(chars[14], '5');
        assert!(matches!(chars[19], '8' | '9' | 'a' | 'b'));
    }
}

#[test]
fn slug_fragment_of_empty_content_is_empty() {
    assert_eq!(post("", 0).slug_fragment(), "");
}

#[test]
fn slug_fragment_holds_letters_digits_and_hyphens() {
    let fragment = post("Snake_case & CamelCase_42", 0).slug_fragment();
    assert_eq!(fragment, "snake-case-camelcase-42");
    assert!(fragment.chars().all(|c| matches!(c, 'a'..='z' | '0'..='9' | '-')));
}
