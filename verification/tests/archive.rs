use archive_parser::archive::{threaded_tweets, tweets_js_payload, ArchiveError, TWEETS_JS_PREFIX_LEN};
use archive_parser::{Entities, Media, Photo, Timestamp, Tweet, TwitterArchive, UserMention};

fn tweet(id: &str, parent: Option<&str>, text: &str) -> Tweet {
    Tweet {
        id_str: id.to_string(),
        in_reply_to_status_id_str: parent.map(|p| p.to_string()),
        in_reply_to_screen_name: None,
        entities: Entities { user_mentions: vec![], urls: vec![], media: vec![], symbols: vec![], hashtags: vec![] },
        display_text_range: ["0".to_string(), "1".to_string()],
        favorite_count: "0".to_string(),
        favorited: false,
        retweet_count: "0".to_string(),
        retweeted: false,
        truncated: false,
        possibly_sensitive: false,
        created_at: Timestamp::new(2020, 1, 1, 0, 0, 0, 0).unwrap(),
        full_text: text.to_string(),
        extended_entities: None,
    }
}

fn ids(a: &TwitterArchive) -> Vec<i64> {
    a.tweets.keys().copied().collect()
}

#[test]
fn threads_are_kept_and_orphans_dropped() {
    let tweets = vec![
        tweet("10", None, "start"),
        tweet("11", Some("10"), "reply"),
        tweet("12", Some("11"), "reply to reply"),
        tweet("20", Some("5"), "reply to a tweet not in the archive"),
        tweet("21", Some("20"), "reply to an orphan"),
    ];
    let a = TwitterArchive::from_tweets("/tmp/archive".to_string(), tweets);
    assert_eq!(ids(&a), vec![10, 11, 12]);
    assert_eq!(a.base_dir, "/tmp/archive");
}

#[test]
fn retweets_and_deleted_references_are_dropped_with_their_replies() {
    let mut rt = tweet("30", None, "RT @eve: hello");
    rt.entities.user_mentions = vec![UserMention {
        name: "Eve".to_string(),
        screen_name: "eve".to_string(),
        indicies: None,
        id_str: "9".to_string(),
    }];
    let tweets = vec![
        rt,
        tweet("31", Some("30"), "reply to a retweet"),
        tweet("40", None, "quote https://t.co/gone"),
        tweet("41", Some("40"), "reply to it"),
        tweet("50", None, "fine"),
    ];
    let a = TwitterArchive::from_tweets(String::new(), tweets);
    assert_eq!(ids(&a), vec![50]);
}

#[test]
fn a_reply_to_a_later_tweet_is_checked_before_its_parent() {
    // The parent has the higher id, so it is looked at later: the reply is
    // kept although its parent goes.
    let tweets = vec![tweet("60", Some("70"), "reply"), tweet("70", Some("1"), "orphan")];
    let a = TwitterArchive::from_tweets(String::new(), tweets);
    assert_eq!(ids(&a), vec![60]);
}

#[test]
fn a_later_tweet_with_the_same_id_replaces_the_earlier() {
    let tweets = vec![tweet("80", None, "first"), tweet("80", None, "second")];
    let a = TwitterArchive::from_tweets(String::new(), tweets);
    assert_eq!(a.get_tweet(80).unwrap().full_text, "second");
}

#[test]
fn get_tweet_finds_by_id() {
    let a = TwitterArchive::from_tweets(String::new(), vec![tweet("90", None, "here")]);
    assert_eq!(a.get_tweet(90).unwrap().full_text, "here");
    assert_eq!(a.get_tweet(91).err(), Some(ArchiveError::NotFound));
}

#[test]
fn an_empty_archive_has_no_tweets() {
    let a = TwitterArchive::from_tweets(String::new(), vec![]);
    assert!(a.tweets.is_empty());
}

#[test]
fn tweets_js_payload_skips_the_assignment() {
    let content = "window.YTD.tweets.part0 = [ {\"tweet\": {}} ]";
    assert_eq!(TWEETS_JS_PREFIX_LEN, "window.YTD.tweets.part0 = ".len());
    assert_eq!(tweets_js_payload(content), "[ {\"tweet\": {}} ]");
}

#[test]
fn the_listing_keeps_threads_and_drops_orphans_only() {
    let mut rt = tweet("30", None, "RT @eve: hello");
    rt.entities.user_mentions = vec![UserMention {
        name: "Eve".to_string(),
        screen_name: "eve".to_string(),
        indicies: None,
        id_str: "9".to_string(),
    }];
    let tweets = vec![
        tweet("12", Some("11"), "reply to reply"),
        tweet("10", None, "start"),
        tweet("11", Some("10"), "reply"),
        tweet("20", Some("5"), "reply to a tweet not in the list"),
        tweet("21", Some("20"), "reply to an orphan"),
        rt,
        tweet("31", Some("30"), "reply to a retweet"),
    ];
    let m = threaded_tweets(tweets).unwrap();
    assert_eq!(m.keys().copied().collect::<Vec<i64>>(), vec![10, 11, 12, 30, 31]);
    assert_eq!(m[&31].full_text, "reply to a retweet");
}

#[test]
fn the_listing_refuses_ids_that_are_not_above_zero() {
    let tweets = vec![tweet("5", None, "a"), tweet("0", None, "b"), tweet("-3", None, "c")];
    assert_eq!(threaded_tweets(tweets).err(), Some(-3));
    assert_eq!(threaded_tweets(vec![tweet("0", None, "zero")]).err(), Some(0));
    assert!(threaded_tweets(vec![]).unwrap().is_empty());
}

#[test]
fn media_files_lie_under_the_tweet_id() {
    let a = TwitterArchive::from_tweets("/srv/archive".to_string(), vec![]);
    let photo = Media::Photo(Photo {
        id_str: "5".to_string(),
        url: "https://t.co/x".to_string(),
        expanded_url: "https://twitter.com/a/status/1/photo/1".to_string(),
        indices: None,
        media_url: "http://pbs.twimg.com/media/DpM.jpg".to_string(),
        media_url_https: "https://pbs.twimg.com/media/DpM.jpg".to_string(),
        display_url: "pic.twitter.com/x".to_string(),
    });
    assert_eq!(a.media_path(1049420839327883266, &photo), "/srv/archive/data/tweets_media/1049420839327883266-DpM.jpg");
}

#[test]
fn a_postable_reply_whose_parent_stays_is_kept() {
    // The reply comes first in the list and has a lower id than its parent;
    // the parent stays, so the reply stays too.
    let tweets = vec![tweet("5", Some("9"), "early reply"), tweet("9", None, "parent"), tweet("9", None, "parent, last")];
    let a = TwitterArchive::from_tweets(String::new(), tweets);
    assert_eq!(ids(&a), vec![5, 9]);
    assert_eq!(a.get_tweet(9).unwrap().full_text, "parent, last");
}
