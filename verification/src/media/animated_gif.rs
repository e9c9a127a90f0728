//! Animated GIFs attached to a tweet.
use vstd::prelude::*;
use super::{Sizes, VideoInfo};
use crate::text::{decimal_string, lemma_parse_u64_of_decimal, parse_u64, parse_u64_spec};

verus! {

/// An animated GIF, which Twitter stores as a video.
#[derive(Debug)]
pub struct AnimatedGif {
    pub id_str: String,
    pub url: String,
    pub expanded_url: String,
    pub indices: Option<[String; 2]>,
    pub media_url: String,
    pub media_url_https: String,
    pub display_url: String,
    pub sizes: Sizes,
    pub video_info: VideoInfo,
}

impl Clone for AnimatedGif {
    fn clone(&self) -> (r: Self)
        ensures
            r.same(self),
    {
        AnimatedGif {
            id_str: self.id_str.clone(),
            url: self.url.clone(),
            expanded_url: self.expanded_url.clone(),
            indices: super::photo::clone_opt_pair(&self.indices),
            media_url: self.media_url.clone(),
            media_url_https: self.media_url_https.clone(),
            display_url: self.display_url.clone(),
            sizes: self.sizes.clone(),
            video_info: self.video_info.clone(),
        }
    }
}

impl AnimatedGif {
    /// Two animated GIFs are copies of each other.
    pub open spec fn same(&self, other: &AnimatedGif) -> bool {
        &&& self.id_str == other.id_str
        &&& self.url == other.url
        &&& self.expanded_url == other.expanded_url
        &&& self.indices == other.indices
        &&& self.media_url == other.media_url
        &&& self.media_url_https == other.media_url_https
        &&& self.display_url == other.display_url
        &&& self.sizes == other.sizes
        &&& self.video_info.same(&other.video_info)
    }

    /// The file name of the variant with the highest bitrate.
    pub open spec fn file_name_spec(&self) -> Option<Seq<char>> {
        self.video_info.file_name_spec()
    }

    /// The numeric id of the animated GIF.
    pub fn id(&self) -> (r: u64)
        requires
            parse_u64_spec(self.id_str@) is Some,
        ensures
            parse_u64_spec(self.id_str@) == Some(r),
    {
        parse_u64(self.id_str.as_str()).unwrap()
    }

    /// The file name of the variant with the highest bitrate.
    pub fn file_name(&self) -> (r: String)
        requires
            self.file_name_spec() is Some,
        ensures
            self.file_name_spec() == Some(r@),
    {
        self.video_info.file_name()
    }
}

/// An animated GIF whose id is written in decimal has that number as its id: `id`
/// accepts it and gives it back.
pub proof fn lemma_animated_gif_id_of_decimal(m: &AnimatedGif, n: u64)
    requires
        m.id_str@ == decimal_string(n as nat),
    ensures
        parse_u64_spec(m.id_str@) == Some(n),
{
    lemma_parse_u64_of_decimal(n);
}

} // verus!

