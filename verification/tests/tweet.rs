use archive_parser::tweet::{ListingAction, MediaPlan, ACCOUNT_ID};
use archive_parser::{Entities, ExtendedEntities, Media, Photo, Status, Timestamp, Tweet, Url, UserMention};

fn pair(a: &str, b: &str) -> [String; 2] {
    [a.to_string(), b.to_string()]
}

fn mention(screen_name: &str) -> UserMention {
    UserMention {
        name: screen_name.to_uppercase(),
        screen_name: screen_name.to_string(),
        indicies: None,
        id_str: "1".to_string(),
    }
}

fn url(short: &str, long: &str) -> Url {
    Url {
        url: short.to_string(),
        expanded_url: long.to_string(),
        display_url: long.to_string(),
        indices: pair("0", "1"),
    }
}

fn photo(short: &str, first_index: &str, file: &str) -> Media {
    Media::Photo(Photo {
        id_str: "5".to_string(),
        url: short.to_string(),
        expanded_url: "https://twitter.com/bencord0/status/1/photo/1".to_string(),
        indices: Some(pair(first_index, "40")),
        media_url: format!("http://pbs.twimg.com/media/{file}"),
        media_url_https: format!("https://pbs.twimg.com/media/{file}"),
        display_url: "pic.twitter.com/x".to_string(),
    })
}

fn created() -> Timestamp {
    Timestamp::new(2018, 10, 10, 20, 19, 24, 0).unwrap()
}

fn tweet(id: &str, parent: Option<&str>, text: &str) -> Tweet {
    Tweet {
        id_str: id.to_string(),
        in_reply_to_status_id_str: parent.map(|p| p.to_string()),
        in_reply_to_screen_name: None,
        entities: Entities { user_mentions: vec![], urls: vec![], media: vec![], symbols: vec![], hashtags: vec![] },
        display_text_range: pair("0", "10"),
        favorite_count: "0".to_string(),
        favorited: false,
        retweet_count: "0".to_string(),
        retweeted: false,
        truncated: false,
        possibly_sensitive: false,
        created_at: created(),
        full_text: text.to_string(),
        extended_entities: None,
    }
}

fn rich_tweet() -> Tweet {
    let mut t = tweet(
        "1049420839327883266",
        Some("1049420000000000000"),
        "Hi @alice, read https://t.co/AbC https://t.co/Pic",
    );
    t.entities.user_mentions = vec![mention("alice")];
    t.entities.urls = vec![url("https://t.co/AbC", "https://example.com/post")];
    t.entities.media = vec![photo("https://t.co/Pic", "30", "DpM.jpg")];
    t.extended_entities = Some(ExtendedEntities { media: vec![photo("https://t.co/Pic", "30", "DpM.jpg")] });
    t
}

#[test]
fn ids_are_read() {
    let t = rich_tweet();
    assert_eq!(t.id(), 1049420839327883266);
    assert_eq!(t.parent_id(), Some(1049420000000000000));
    assert_eq!(tweet("3", None, "x").parent_id(), None);
}

#[test]
fn replaced_text_expands_links_points_mentions_and_cuts_photos() {
    assert_eq!(
        rich_tweet().replaced_text(),
        "Hi @alice@twitter.com, read https://example.com/post"
    );
}

#[test]
fn a_photo_that_starts_the_text_is_cut_without_a_space() {
    let mut t = tweet("1", None, "https://t.co/Pic hello");
    t.entities.media = vec![photo("https://t.co/Pic", "0", "P.jpg")];
    assert_eq!(t.replaced_text(), " hello");
}

#[test]
fn every_occurrence_of_a_mention_is_rewritten() {
    let mut t = tweet("1", None, "@bob and @bobby");
    t.entities.user_mentions = vec![mention("bob")];
    assert_eq!(t.replaced_text(), "@bob@twitter.com and @bob@twitter.comby");
}

#[test]
fn retweets_start_with_rt_and_a_mentioned_account() {
    let mut t = tweet("1", None, "RT @carol: something");
    t.entities.user_mentions = vec![mention("dave"), mention("carol")];
    assert!(t.is_retweet());
    let mut u = tweet("1", None, "Not RT @carol: something");
    u.entities.user_mentions = vec![mention("carol")];
    assert!(!u.is_retweet());
    assert!(!tweet("1", None, "RT @nobody: x").is_retweet());
}

#[test]
fn leftover_short_links_mark_deleted_references() {
    let t = tweet("1", None, "quoting https://t.co/Gone");
    assert!(t.references_deleted_tweet());
    assert!(!rich_tweet().references_deleted_tweet());
}

#[test]
fn media_of_a_tweet_are_its_extended_media() {
    assert_eq!(rich_tweet().media().len(), 1);
    assert!(tweet("1", None, "x").media().is_empty());
}

#[test]
fn insert_sql_of_a_tweet() {
    let t = rich_tweet();
    let sql = t.insert_sql();
    assert_eq!(sql.status_id, 1049420839327883266);
    assert_eq!(sql.account_id, ACCOUNT_ID);
    assert_eq!(sql.account_id, 109399109809644293);
    assert_eq!(sql.text, "Hi @alice@twitter.com, read https://example.com/post");
    assert_eq!(sql.timestamp, created());
    assert_eq!(sql.in_reply_to_id, Some(1049420000000000000));
    assert!(sql.media_attachment_ids.is_empty());
    assert_eq!(tweet("8", None, "x").insert_sql().in_reply_to_id, None);
}

fn status_of(t: &Tweet) -> Status {
    Status {
        id: t.id(),
        uri: format!("https://twitter.com/bencord0/status/{}", t.id()),
        account_id: 109399109809644293,
        text: t.replaced_text(),
        created_at: t.created_at,
        updated_at: t.created_at,
        in_reply_to_id: t.parent_id(),
        ordered_media_attachment_ids: Some(vec![123]),
    }
}

#[test]
fn a_tweet_matches_the_status_it_became() {
    let t = rich_tweet();
    let s = status_of(&t);
    assert!(t.matches_status(&s));
}

#[test]
fn a_tweet_does_not_match_a_different_status() {
    let t = rich_tweet();
    let mut s = status_of(&t);
    s.text = "other".to_string();
    assert!(!t.matches_status(&s));
    let mut s = status_of(&t);
    s.ordered_media_attachment_ids = None;
    assert!(!t.matches_status(&s));
    let mut s = status_of(&t);
    s.updated_at = Timestamp::default();
    assert!(!t.matches_status(&s));
    assert!(!t.matches_status(&Status::default()));
}

#[test]
fn status_display_and_media_count() {
    let s = Status {
        id: -5,
        uri: String::new(),
        account_id: 1,
        text: "hi".to_string(),
        created_at: Timestamp::default(),
        updated_at: Timestamp::default(),
        in_reply_to_id: None,
        ordered_media_attachment_ids: Some(vec![10, 20]),
    };
    assert_eq!(s.media_count(), 2);
    assert_eq!(s.display(), "id   : -5\ntext : hi\nmedia: 10\nmedia: 20\n");
    assert_eq!(Status::default().media_count(), 0);
    assert_eq!(Status::default().display(), "id   : 0\ntext : \n");
}

#[test]
fn tweet_display() {
    assert_eq!(
        rich_tweet().display(),
        "id: 1049420839327883266\nin_reply_to: 1049420000000000000\nHi @alice@twitter.com, read https://example.com/post\n  2018-10-10 20:19:24\n  photo| 1049420839327883266-DpM.jpg\n"
    );
    assert_eq!(tweet("4", None, "plain").display(), "id: 4\nplain\n  2018-10-10 20:19:24\n");
}

#[test]
fn an_inserted_tweet_matches_the_status_its_insert_stored() {
    let t = rich_tweet();
    let sql = t.insert_sql();
    let stored = Status {
        id: sql.status_id as i64,
        uri: format!("https://twitter.com/bencord0/status/{}", sql.status_id),
        account_id: sql.account_id as i64,
        text: sql.text.clone(),
        created_at: sql.timestamp,
        updated_at: sql.timestamp,
        in_reply_to_id: sql.in_reply_to_id.map(|p| p as i64),
        ordered_media_attachment_ids: Some(vec![7; t.media().len()]),
    };
    assert!(t.matches_status(&stored));
    let reply_free = tweet("42", None, "plain");
    let sql = reply_free.insert_sql();
    let stored = Status {
        id: sql.status_id as i64,
        uri: format!("https://twitter.com/bencord0/status/{}", sql.status_id),
        account_id: sql.account_id as i64,
        text: sql.text.clone(),
        created_at: sql.timestamp,
        updated_at: sql.timestamp,
        in_reply_to_id: None,
        ordered_media_attachment_ids: Some(Vec::new()),
    };
    assert!(reply_free.matches_status(&stored));
}

#[test]
fn the_listing_skips_retweets_and_deleted_references_and_stops_at_empty_media() {
    let mut rt = tweet("1", None, "RT @bob: hi");
    rt.entities.user_mentions = vec![mention("bob")];
    assert_eq!(rt.listing_action(), ListingAction::Skip);
    assert_eq!(tweet("2", None, "see https://t.co/gone").listing_action(), ListingAction::Skip);
    assert_eq!(tweet("3", None, "plain").listing_action(), ListingAction::Show);
    assert_eq!(rich_tweet().listing_action(), ListingAction::Show);
    let mut empty = tweet("4", None, "plain");
    empty.extended_entities = Some(ExtendedEntities { media: vec![] });
    assert_eq!(empty.listing_action(), ListingAction::ShowAndStop);
}

#[test]
fn media_are_uploaded_unless_the_status_has_as_many() {
    let t = rich_tweet();
    let mut s = status_of(&t);
    s.ordered_media_attachment_ids = Some(vec![123]);
    assert_eq!(t.media_plan(&s), MediaPlan::Reuse(vec![123]));
    s.ordered_media_attachment_ids = Some(vec![1, 2]);
    assert_eq!(t.media_plan(&s), MediaPlan::Upload);
    s.ordered_media_attachment_ids = None;
    assert_eq!(t.media_plan(&s), MediaPlan::Upload);
    assert_eq!(tweet("5", None, "x").media_plan(&s), MediaPlan::Reuse(vec![]));
    assert_eq!(tweet("5", None, "x").media_plan(&Status::default()), MediaPlan::Reuse(vec![]));
}

#[test]
fn tweet_ids_written_in_decimal_are_read_back() {
    for n in [0i64, 9, -1, 1049420839327883266, i64::MAX, i64::MIN] {
        let t = tweet(&n.to_string(), Some(&(n / 2).to_string()), "x");
        assert_eq!(t.id(), n);
        assert_eq!(t.parent_id(), Some(n / 2));
    }
}
