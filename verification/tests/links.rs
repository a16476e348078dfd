//! Links in message text.

use azalea::config::EngineSettings;
use azalea::media::url::{
    distinct_tweets, links_from_captures, lone_link, parse_tweet_urls, LoneLink, TweetId,
    TweetLink, UrlCapture,
};

fn capture(whole: &str, user: &str, id: &str) -> UrlCapture {
    UrlCapture {
        whole: Some(whole.to_string()),
        user: Some(user.to_string()),
        id: Some(id.to_string()),
    }
}

#[test]
fn test_parse_x_com_url() {
    let content = "Check this out https://x.com/elonmusk/status/1234567890";
    let urls = parse_tweet_urls(content);
    assert_eq!(urls.len(), 1);
    assert_eq!(urls.get(0).map(|url| url.user.as_str()), Some("elonmusk"));
    assert_eq!(urls.get(0).map(|url| url.tweet_id.0), Some(1234567890));
}

#[test]
fn test_parse_twitter_com_url() {
    let content = "Old link: https://twitter.com/jack/status/9876543210";
    let urls = parse_tweet_urls(content);
    assert_eq!(urls.len(), 1);
    assert_eq!(urls.get(0).map(|url| url.user.as_str()), Some("jack"));
    assert_eq!(urls.get(0).map(|url| url.tweet_id.0), Some(9876543210));
}

#[test]
fn test_parse_vxtwitter_url() {
    let content = "Better embed: https://vxtwitter.com/user/status/1111111111";
    let urls = parse_tweet_urls(content);
    assert_eq!(urls.len(), 1);
    assert_eq!(urls.get(0).map(|url| url.tweet_id.0), Some(1111111111));
}

#[test]
fn test_parse_multiple_urls() {
    let content = "Two tweets: https://x.com/a/status/111 and https://twitter.com/b/status/222";
    let urls = parse_tweet_urls(content);
    assert_eq!(urls.len(), 2);
}

#[test]
fn test_reject_invalid_user() {
    let content = "Invalid handle https://x.com/user.name/status/333";
    let urls = parse_tweet_urls(content);
    assert!(urls.is_empty());
}

#[test]
fn test_no_urls() {
    let content = "No Twitter links here, just text.";
    let urls = parse_tweet_urls(content);
    assert!(urls.is_empty());
}

#[test]
fn test_canonical_url() {
    let url = TweetLink::new(
        "user".to_string(),
        TweetId(12345),
        "https://x.com/user/status/12345".to_string(),
    );
    assert_eq!(url.canonical_url(), "https://x.com/user/status/12345");
}

#[test]
fn test_original_url() {
    let url = TweetLink::new(
        "user".to_string(),
        TweetId(12345),
        "https://twitter.com/user/status/12345".to_string(),
    );
    assert_eq!(url.original_url(), "https://twitter.com/user/status/12345");
}

#[test]
fn differential_hosts_produce_same_canonical_url() {
    let x = parse_tweet_urls("https://x.com/user/status/424242");
    let twitter = parse_tweet_urls("https://twitter.com/user/status/424242");
    let vx = parse_tweet_urls("https://vxtwitter.com/user/status/424242");

    let x = x.get(0).expect("x url should parse");
    let twitter = twitter.get(0).expect("twitter url should parse");
    let vx = vx.get(0).expect("vxtwitter url should parse");

    assert_eq!(x.canonical_url(), twitter.canonical_url());
    assert_eq!(x.canonical_url(), vx.canonical_url());
}

#[test]
fn parse_and_validate_smoke() {
    let settings = EngineSettings::default();
    settings.validate().expect("default settings must validate");

    let urls = parse_tweet_urls("https://x.com/rustlang/status/123456");
    assert_eq!(urls.len(), 1);
    let url = urls.get(0).expect("single url");
    assert_eq!(url.canonical_url(), "https://x.com/rustlang/status/123456");
}

#[test]
fn parse_roundtrips_written_links() {
    for user in ["a", "A_z_0_9", "abcdefghijklmno"] {
        for id in [1u64, 10, 9_223_372_036_854_775_808, u64::MAX] {
            let content = format!("look https://x.com/{user}/status/{id}");
            let urls = parse_tweet_urls(&content);
            assert_eq!(urls.len(), 1);
            let parsed = urls.get(0).expect("exactly one parsed url");
            assert_eq!(parsed.user, user);
            assert_eq!(parsed.tweet_id.0, id);
            assert_eq!(parsed.canonical_url(), format!("https://x.com/{user}/status/{id}"));
        }
    }
}

#[test]
fn numbers_too_large_for_a_tweet_are_skipped() {
    let urls = parse_tweet_urls(
        "https://x.com/a/status/18446744073709551616 https://x.com/b/status/18446744073709551615",
    );
    assert_eq!(urls.len(), 1);
    assert_eq!(urls.get(0).map(|url| url.user.as_str()), Some("b"));
    assert!(urls.get(1).is_none());
}

#[test]
fn captures_without_a_group_are_skipped() {
    let mut bare = capture("w", "u", "5");
    bare.user = None;
    let links = links_from_captures(&vec![bare, capture("https://x.com/k/status/7", "k", "7")]);
    assert_eq!(links.len(), 1);
    assert_eq!(links.get(0).map(|l| l.original_url()), Some("https://x.com/k/status/7"));
    assert!(links_from_captures(&Vec::new()).is_empty());
}

#[test]
fn more_links_than_fit_inline_are_kept_in_order() {
    let mut text = String::new();
    for i in 1..=9 {
        text.push_str(&format!("https://x.com/u/status/{i} "));
    }
    let links = parse_tweet_urls(&text);
    assert_eq!(links.len(), 9);
    for i in 0..9 {
        assert_eq!(links.get(i).map(|l| l.tweet_id.0), Some(i as u64 + 1));
    }
}

#[test]
fn a_lone_link_is_told_from_none_and_several() {
    assert!(matches!(lone_link(&parse_tweet_urls("nothing")), LoneLink::Absent));
    match lone_link(&parse_tweet_urls("https://x.com/u/status/4")) {
        LoneLink::One { link } => assert_eq!(link.tweet_id, TweetId(4)),
        other => panic!("one link expected, got {other:?}"),
    }
    assert!(matches!(
        lone_link(&parse_tweet_urls("https://x.com/u/status/4 https://x.com/u/status/5")),
        LoneLink::Several
    ));
}

#[test]
fn each_tweet_is_kept_at_its_first_place() {
    let links = parse_tweet_urls(
        "https://x.com/a/status/1 https://x.com/b/status/2 https://twitter.com/c/status/1 \
         https://x.com/d/status/3",
    );
    assert_eq!(distinct_tweets(&links), vec![0, 1, 3]);
}
