//! Photos attached to a tweet.
use vstd::prelude::*;
use crate::text::{
    decimal_string, ends_with, file_name, is_suffix, lemma_parse_u64_of_decimal, parse_u64, parse_u64_spec,
    path_file_name,
};

verus! {

broadcast use vstd::array::group_array_axioms;

/// A photo, as a tweet's media entity describes it.
#[derive(Debug)]
pub struct Photo {
    pub id_str: String,
    pub url: String,
    pub expanded_url: String,
    pub indices: Option<[String; 2]>,
    pub media_url: String,
    pub media_url_https: String,
    pub display_url: String,
}

/// A copy of a pair of strings.
pub(crate) fn clone_pair(a: &[String; 2]) -> (r: [String; 2])
    ensures
        r == *a,
{
    let r = [a[0].clone(), a[1].clone()];
    assert(r =~= *a);
    r
}

/// A copy of an optional pair of strings.
pub(crate) fn clone_opt_pair(a: &Option<[String; 2]>) -> (r: Option<[String; 2]>)
    ensures
        r == *a,
{
    match a {
        Some(p) => Some(clone_pair(p)),
        None => None,
    }
}

impl Clone for Photo {
    fn clone(&self) -> (r: Self)
        ensures
            r == *self,
    {
        Photo {
            id_str: self.id_str.clone(),
            url: self.url.clone(),
            expanded_url: self.expanded_url.clone(),
            indices: clone_opt_pair(&self.indices),
            media_url: self.media_url.clone(),
            media_url_https: self.media_url_https.clone(),
            display_url: self.display_url.clone(),
        }
    }
}

impl Photo {
    /// The file name of the photo: that of its media URL, which must be a
    /// `.jpg` or `.png` image.
    pub open spec fn file_name_spec(&self) -> Option<Seq<char>> {
        match path_file_name(self.media_url@) {
            Some(f) => if is_suffix(".jpg"@, f) || is_suffix(".png"@, f) {
                Some(f)
            } else {
                None
            },
            None => None,
        }
    }

    /// The numeric id of the photo.
    pub fn id(&self) -> (r: u64)
        requires
            parse_u64_spec(self.id_str@) is Some,
        ensures
            parse_u64_spec(self.id_str@) == Some(r),
    {
        parse_u64(self.id_str.as_str()).unwrap()
    }

    /// Whether the photo has a file name (an image's).
    pub fn has_file_name(&self) -> (r: bool)
        ensures
            r == self.file_name_spec() is Some,
    {
        match file_name(self.media_url.as_str()) {
            Some(f) => ends_with(f.as_str(), ".jpg") || ends_with(f.as_str(), ".png"),
            None => false,
        }
    }

    /// The file name of the photo's image.
    pub fn file_name(&self) -> (r: String)
        requires
            self.file_name_spec() is Some,
        ensures
            self.file_name_spec() == Some(r@),
    {
        let f = file_name(self.media_url.as_str()).unwrap();
        let is_image = ends_with(f.as_str(), ".jpg") || ends_with(f.as_str(), ".png");
        assert(is_image);
        f
    }
}

/// A photo whose id is written in decimal has that number as its id: `id`
/// accepts it and gives it back.
pub proof fn lemma_photo_id_of_decimal(m: &Photo, n: u64)
    requires
        m.id_str@ == decimal_string(n as nat),
    ensures
        parse_u64_spec(m.id_str@) == Some(n),
{
    lemma_parse_u64_of_decimal(n);
}

} // verus!

