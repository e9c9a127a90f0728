//! Videos attached to a tweet.
use vstd::prelude::*;
use super::{Sizes, VideoInfo};
use crate::text::{decimal_string, lemma_parse_u64_of_decimal, parse_u64, parse_u64_spec};

verus! {

/// A video.
#[derive(Debug)]
pub struct Video {
    pub id_str: String,
    pub url: String,
    pub expanded_url: String,
    pub indices: Option<[String; 2]>,
    pub media_url: String,
    pub media_url_https: String,
    pub display_url: String,
    pub source_status_id: Option<String>,
    pub source_status_id_str: Option<String>,
    pub video_info: Option<VideoInfo>,
    pub source_user_id: Option<String>,
    pub source_user_id_str: Option<String>,
    pub additional_media_info: Option<AdditionalMediaInfo>,
    pub sizes: Sizes,
}

/// What Twitter records of a video beyond its encodings.
#[derive(Debug)]
pub struct AdditionalMediaInfo {
    pub title: Option<String>,
    pub description: Option<String>,
    pub embeddable: Option<bool>,
    pub monetizable: bool,
}

impl Clone for AdditionalMediaInfo {
    fn clone(&self) -> (r: Self)
        ensures
            r == *self,
    {
        AdditionalMediaInfo {
            title: self.title.clone(),
            description: self.description.clone(),
            embeddable: self.embeddable,
            monetizable: self.monetizable,
        }
    }
}

impl Clone for Video {
    fn clone(&self) -> (r: Self)
        ensures
            r.same(self),
    {
        Video {
            id_str: self.id_str.clone(),
            url: self.url.clone(),
            expanded_url: self.expanded_url.clone(),
            indices: super::photo::clone_opt_pair(&self.indices),
            media_url: self.media_url.clone(),
            media_url_https: self.media_url_https.clone(),
            display_url: self.display_url.clone(),
            source_status_id: self.source_status_id.clone(),
            source_status_id_str: self.source_status_id_str.clone(),
            video_info: match &self.video_info {
                Some(info) => Some(info.clone()),
                None => None,
            },
            source_user_id: self.source_user_id.clone(),
            source_user_id_str: self.source_user_id_str.clone(),
            additional_media_info: match &self.additional_media_info {
                Some(info) => Some(info.clone()),
                None => None,
            },
            sizes: self.sizes.clone(),
        }
    }
}

impl Video {
    /// Two videos are copies of each other.
    pub open spec fn same(&self, other: &Video) -> bool {
        &&& self.id_str == other.id_str
        &&& self.url == other.url
        &&& self.expanded_url == other.expanded_url
        &&& self.indices == other.indices
        &&& self.media_url == other.media_url
        &&& self.media_url_https == other.media_url_https
        &&& self.display_url == other.display_url
        &&& self.source_status_id == other.source_status_id
        &&& self.source_status_id_str == other.source_status_id_str
        &&& match (self.video_info, other.video_info) {
            (Some(a), Some(b)) => a.same(&b),
            (None, None) => true,
            _ => false,
        }
        &&& self.source_user_id == other.source_user_id
        &&& self.source_user_id_str == other.source_user_id_str
        &&& self.additional_media_info == other.additional_media_info
        &&& self.sizes == other.sizes
    }

    /// The file name of the variant with the highest bitrate.
    pub open spec fn file_name_spec(&self) -> Option<Seq<char>> {
        match self.video_info {
            Some(info) => info.file_name_spec(),
            None => None,
        }
    }

    /// The numeric id of the video.
    pub fn id(&self) -> (r: u64)
        requires
            parse_u64_spec(self.id_str@) is Some,
        ensures
            parse_u64_spec(self.id_str@) == Some(r),
    {
        parse_u64(self.id_str.as_str()).unwrap()
    }

    /// The file name of the variant with the highest bitrate.
    pub fn file_name(&self) -> (r: String)
        requires
            self.file_name_spec() is Some,
        ensures
            self.file_name_spec() == Some(r@),
    {
        match &self.video_info {
            Some(info) => info.file_name(),
            None => {
                assert(false);
                String::new()
            },
        }
    }
}

/// A video whose id is written in decimal has that number as its id: `id`
/// accepts it and gives it back.
pub proof fn lemma_video_id_of_decimal(m: &Video, n: u64)
    requires
        m.id_str@ == decimal_string(n as nat),
    ensures
        parse_u64_spec(m.id_str@) == Some(n),
{
    lemma_parse_u64_of_decimal(n);
}

} // verus!

