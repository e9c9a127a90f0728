//! Reads a Twitter archive and turns its tweets into Mastodon statuses.
pub mod archive;
pub mod mastodon;
pub mod media;
pub mod sql;
pub mod text;
pub mod time;
pub mod tweet;

pub use archive::TwitterArchive;
pub use mastodon::{MediaResponse, SleepDuration};
pub use media::{Media, Photo, Video};
pub use sql::{InsertSql, SelectStatusSql, Status, UpdateMediaSql};
pub use time::{Timestamp, UnixTime};
pub use tweet::Tweet;

use vstd::prelude::*;

verus! {

/// One element of the archive's tweet list.
#[derive(Debug)]
pub struct TweetWrapper {
    pub tweet: Tweet,
}

/// What a tweet's text refers to.
#[derive(Clone, Debug)]
pub struct Entities {
    pub user_mentions: Vec<UserMention>,
    pub urls: Vec<Url>,
    pub media: Vec<Media>,
    pub symbols: Vec<Symbol>,
    pub hashtags: Vec<Hashtag>,
}

/// The media of a tweet, with their true types.
#[derive(Clone, Debug)]
pub struct ExtendedEntities {
    pub media: Vec<Media>,
}

/// A mention of another account.
#[derive(Clone, Debug)]
pub struct UserMention {
    pub name: String,
    pub screen_name: String,
    pub indicies: Option<[String; 2]>,
    pub id_str: String,
}

/// A shortened link and what it stands for.
#[derive(Clone, Debug)]
pub struct Url {
    pub url: String,
    pub expanded_url: String,
    pub display_url: String,
    pub indices: [String; 2],
}

/// A cashtag.
#[derive(Clone, Debug)]
pub struct Symbol {
    pub text: String,
    pub indices: [String; 2],
}

/// A hashtag.
#[derive(Clone, Debug)]
pub struct Hashtag {
    pub text: String,
    pub indices: [String; 2],
}

} // verus!
