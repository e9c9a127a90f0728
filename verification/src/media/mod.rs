//! Media attached to tweets.
use vstd::prelude::*;
use crate::sql::UpdateMediaSql;
use crate::text::{file_name, parse_i32, parse_i32_spec, path_file_name, push_char, push_str};

pub mod animated_gif;
pub mod photo;
pub mod video;

pub use animated_gif::AnimatedGif;
pub use photo::Photo;
pub use video::{AdditionalMediaInfo, Video};

verus! {

/// A media entity of a tweet, told apart by its `type`.
#[derive(Debug)]
pub enum Media {
    AnimatedGif(AnimatedGif),
    Photo(Photo),
    Video(Video),
}

impl Media {
    /// Two media are copies of each other.
    pub open spec fn same(&self, other: &Media) -> bool {
        match (self, other) {
            (Media::AnimatedGif(a), Media::AnimatedGif(b)) => a.same(b),
            (Media::Photo(a), Media::Photo(b)) => a == b,
            (Media::Video(a), Media::Video(b)) => a.same(b),
            _ => false,
        }
    }

    /// The name of the media type.
    pub open spec fn media_type_spec(&self) -> Seq<char> {
        match self {
            Media::AnimatedGif(_) => "animated_gif"@,
            Media::Photo(_) => "photo"@,
            Media::Video(_) => "video"@,
        }
    }

    /// The file name of the media in the archive, if it has one.
    pub open spec fn file_name_spec(&self) -> Option<Seq<char>> {
        match self {
            Media::AnimatedGif(g) => g.file_name_spec(),
            Media::Photo(p) => p.file_name_spec(),
            Media::Video(v) => v.file_name_spec(),
        }
    }

    /// The name of the media type.
    pub fn media_type(&self) -> (r: &'static str)
        ensures
            r@ == self.media_type_spec(),
    {
        match self {
            Media::AnimatedGif(_) => "animated_gif",
            Media::Photo(_) => "photo",
            Media::Video(_) => "video",
        }
    }

    /// Whether the media has a file name in the archive.
    pub fn has_file_name(&self) -> (r: bool)
        ensures
            r == self.file_name_spec() is Some,
    {
        match self {
            Media::AnimatedGif(gif) => gif.video_info.has_file_name(),
            Media::Photo(photo) => photo.has_file_name(),
            Media::Video(video) => match &video.video_info {
                Some(info) => info.has_file_name(),
                None => false,
            },
        }
    }

    fn file_name(&self) -> (r: String)
        requires
            self.file_name_spec() is Some,
        ensures
            self.file_name_spec() == Some(r@),
            match self {
                Media::AnimatedGif(gif) => gif.file_name_spec() == Some(r@),
                Media::Photo(photo) => photo.file_name_spec() == Some(r@),
                Media::Video(video) => video.file_name_spec() == Some(r@),
            },
    {
        match self {
            Media::AnimatedGif(gif) => gif.file_name(),
            Media::Photo(photo) => photo.file_name(),
            Media::Video(video) => video.file_name(),
        }
    }

    /// `{prefix}-{file name}`: where the media file lies in the archive.
    pub fn archive_file_name(&self, prefix: &str) -> (r: String)
        requires
            self.file_name_spec() is Some,
        ensures
            r@ == prefix@ + seq!['-'] + self.file_name_spec().unwrap(),
    {
        let suffix = self.file_name();
        let mut r = String::new();
        push_str(&mut r, prefix);
        push_char(&mut r, '-');
        push_str(&mut r, suffix.as_str());
        r
    }

    /// A blank statement to attach the media to a status.
    pub fn update_sql(&self) -> (r: UpdateMediaSql)
        ensures
            r.status_id == 0,
            r.media_attachment_id == 0,
    {
        UpdateMediaSql::default()
    }
}

impl Clone for Media {
    fn clone(&self) -> (r: Self)
        ensures
            r.same(self),
    {
        match self {
            Media::AnimatedGif(g) => Media::AnimatedGif(g.clone()),
            Media::Photo(p) => Media::Photo(p.clone()),
            Media::Video(v) => Media::Video(v.clone()),
        }
    }
}

/// The video information of an animated GIF or a video.
#[derive(Debug)]
pub struct VideoInfo {
    pub aspect_ratio: [String; 2],
    pub duration_millis: Option<String>,
    pub variants: Vec<Variant>,
}

/// One encoding of a video.
#[derive(Debug)]
pub struct Variant {
    pub bitrate: Option<String>,
    pub content_type: String,
    pub url: String,
}

/// The sizes in which Twitter offers an image.
#[derive(Debug)]
pub struct Sizes {
    pub medium: Size,
    pub large: Size,
    pub thumb: Size,
    pub small: Size,
}

/// One size of an image.
#[derive(Debug)]
pub struct Size {
    pub w: String,
    pub h: String,
    pub resize: String,
}

impl Clone for Variant {
    fn clone(&self) -> (r: Self)
        ensures
            r == *self,
    {
        Variant {
            bitrate: self.bitrate.clone(),
            content_type: self.content_type.clone(),
            url: self.url.clone(),
        }
    }
}

impl Clone for Size {
    fn clone(&self) -> (r: Self)
        ensures
            r == *self,
    {
        Size { w: self.w.clone(), h: self.h.clone(), resize: self.resize.clone() }
    }
}

impl Clone for Sizes {
    fn clone(&self) -> (r: Self)
        ensures
            r == *self,
    {
        Sizes {
            medium: self.medium.clone(),
            large: self.large.clone(),
            thumb: self.thumb.clone(),
            small: self.small.clone(),
        }
    }
}

impl Clone for VideoInfo {
    fn clone(&self) -> (r: Self)
        ensures
            r.same(self),
    {
        let variants = self.variants.clone();
        assert(variants@ =~= self.variants@);
        VideoInfo {
            aspect_ratio: photo::clone_pair(&self.aspect_ratio),
            duration_millis: self.duration_millis.clone(),
            variants,
        }
    }
}

/// The bitrate of a variant, where it has one that parses as an `i32`.
pub open spec fn variant_bitrate(v: Variant) -> Option<i32> {
    match v.bitrate {
        Some(b) => parse_i32_spec(b@),
        None => None,
    }
}

/// The selection that a scan of `vs` from the left makes: a variant is
/// taken when its bitrate is at least the highest taken so far (which
/// starts at 0). Gives the index of the variant taken last and the highest
/// bitrate.
pub open spec fn bitrate_selection(vs: Seq<Variant>) -> (Option<int>, i32)
    decreases vs.len(),
{
    if vs.len() == 0 {
        (None, 0)
    } else {
        let (sel, hi) = bitrate_selection(vs.drop_last());
        match variant_bitrate(vs.last()) {
            Some(b) => if b >= hi {
                (Some(vs.len() - 1), b)
            } else {
                (sel, hi)
            },
            None => (sel, hi),
        }
    }
}

impl VideoInfo {
    /// Two video informations are copies of each other.
    pub open spec fn same(&self, other: &VideoInfo) -> bool {
        &&& self.aspect_ratio == other.aspect_ratio
        &&& self.duration_millis == other.duration_millis
        &&& self.variants@ == other.variants@
    }

    /// The index of the variant with the highest bitrate.
    pub open spec fn highest_bitrate_index(&self) -> Option<int> {
        bitrate_selection(self.variants@).0
    }

    /// The file name of the variant with the highest bitrate.
    pub open spec fn file_name_spec(&self) -> Option<Seq<char>> {
        match self.highest_bitrate_index() {
            Some(i) => path_file_name(self.variants@[i].url@),
            None => None,
        }
    }

    /// The variant with the highest bitrate; among equal bitrates, the last.
    pub fn highest_bitrate_variant(&self) -> (r: Option<Variant>)
        ensures
            match self.highest_bitrate_index() {
                Some(i) => r == Some(self.variants@[i]),
                None => r is None,
            },
    {
        let mut selected: Option<usize> = None;
        let mut highest: i32 = 0;
        let mut i: usize = 0;
        while i < self.variants.len()
            invariant
                i <= self.variants.len(),
                bitrate_selection(self.variants@.take(i as int)) == (
                    match selected {
                        Some(k) => Some(k as int),
                        None => None::<int>,
                    },
                    highest,
                ),
                selected matches Some(k) ==> k < i,
            decreases self.variants.len() - i,
        {
            assert(self.variants@.take(i + 1).drop_last() =~= self.variants@.take(i as int));
            let variant = &self.variants[i];
            if let Some(bitrate) = &variant.bitrate {
                if let Some(bitrate) = parse_i32(bitrate.as_str()) {
                    if bitrate >= highest {
                        highest = bitrate;
                        selected = Some(i);
                    }
                }
            }
            i = i + 1;
        }
        assert(self.variants@.take(i as int) =~= self.variants@);
        match selected {
            Some(k) => Some(self.variants[k].clone()),
            None => None,
        }
    }

    /// Whether the variant with the highest bitrate has a file name.
    pub fn has_file_name(&self) -> (r: bool)
        ensures
            r == self.file_name_spec() is Some,
    {
        match self.highest_bitrate_variant() {
            Some(variant) => file_name(variant.url.as_str()).is_some(),
            None => false,
        }
    }

    /// The file name of the variant with the highest bitrate.
    pub fn file_name(&self) -> (r: String)
        requires
            self.file_name_spec() is Some,
        ensures
            self.file_name_spec() == Some(r@),
    {
        let variant = self.highest_bitrate_variant().unwrap();
        file_name(variant.url.as_str()).unwrap()
    }
}

/// The variant `highest_bitrate_variant` picks is one whose bitrate is the
/// highest (and not negative) among the variants with a readable bitrate,
/// and the last such one; there is none only if no variant has a readable
/// bitrate that is not negative.
pub proof fn lemma_highest_bitrate_is_last_maximum(vs: Seq<Variant>)
    ensures
        match bitrate_selection(vs).0 {
            Some(i) => {
                &&& 0 <= i < vs.len()
                &&& variant_bitrate(vs[i]) == Some(bitrate_selection(vs).1)
                &&& bitrate_selection(vs).1 >= 0
                &&& forall|j: int|
                    0 <= j < vs.len() && #[trigger] variant_bitrate(vs[j]) is Some
                        ==> variant_bitrate(vs[j])->0 <= bitrate_selection(vs).1
                &&& forall|j: int|
                    i < j < vs.len() && #[trigger] variant_bitrate(vs[j]) is Some
                        ==> variant_bitrate(vs[j])->0 < bitrate_selection(vs).1
            },
            None => forall|j: int|
                0 <= j < vs.len() && #[trigger] variant_bitrate(vs[j]) is Some
                    ==> variant_bitrate(vs[j])->0 < 0,
        },
        bitrate_selection(vs).1 >= 0,
        bitrate_selection(vs).0 is None ==> bitrate_selection(vs).1 == 0,
    decreases vs.len(),
{
    if vs.len() > 0 {
        let prefix = vs.drop_last();
        lemma_highest_bitrate_is_last_maximum(prefix);
        let (sel, hi) = bitrate_selection(prefix);
        let n = vs.len() - 1;
        assert forall|j: int| 0 <= j < prefix.len() implies #[trigger] prefix[j] == vs[j] by {}
        assert(vs.last() == vs[n]);
        if variant_bitrate(vs.last()) is Some && variant_bitrate(vs.last())->0 >= hi {
            let b = variant_bitrate(vs.last())->0;
            assert forall|j: int|
                0 <= j < vs.len() && #[trigger] variant_bitrate(vs[j]) is Some
                    implies variant_bitrate(vs[j])->0 <= b by {
                if j < n {
                    assert(variant_bitrate(prefix[j]) is Some);
                }
            }
        } else {
            match sel {
                Some(i) => {
                    assert forall|j: int|
                        0 <= j < vs.len() && #[trigger] variant_bitrate(vs[j]) is Some
                            implies variant_bitrate(vs[j])->0 <= hi by {
                        if j < n {
                            assert(variant_bitrate(prefix[j]) is Some);
                        }
                    }
                    assert forall|j: int|
                        i < j < vs.len() && #[trigger] variant_bitrate(vs[j]) is Some
                            implies variant_bitrate(vs[j])->0 < hi by {
                        if j < n {
                            assert(variant_bitrate(prefix[j]) is Some);
                        }
                    }
                },
                None => {
                    assert forall|j: int|
                        0 <= j < vs.len() && #[trigger] variant_bitrate(vs[j]) is Some
                            implies variant_bitrate(vs[j])->0 < 0 by {
                        if j < n {
                            assert(variant_bitrate(prefix[j]) is Some);
                        }
                    }
                },
            }
        }
    }
}

} // verus!
