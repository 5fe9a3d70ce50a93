use super::data::{opt_str, PixivData};
use crate::text::{decimal, push_decimal};
use vstd::prelude::*;

verus! {

/// What an image's Exif data is filled from.
pub trait ExifDataSource {
    fn image_author(&self) -> (r: Option<String>)
        default_ensures
            r is None,
    {
        None
    }

    fn image_comment(&self) -> (r: Option<String>)
        default_ensures
            r is None,
    {
        None
    }

    fn image_id(&self) -> (r: Option<String>)
        default_ensures
            r is None,
    {
        None
    }

    fn image_title(&self) -> (r: Option<String>)
        default_ensures
            r is None,
    {
        None
    }
}

/// The link of an artwork.
pub open spec fn artwork_link(id: u64) -> Seq<char> {
    "https://www.pixiv.net/artworks/"@ + decimal(id as nat)
}

/// A copy of an optional text.
fn copy_opt(s: &Option<String>) -> (r: Option<String>)
    ensures
        opt_str(r) == opt_str(*s),
{
    match s {
        Some(x) => Some(x.clone()),
        None => None,
    }
}

impl ExifDataSource for PixivData {
    fn image_author(&self) -> (r: Option<String>)
        ensures
            opt_str(r) == self@.author,
    {
        copy_opt(&self.author)
    }

    fn image_comment(&self) -> (r: Option<String>)
        ensures
            opt_str(r) == self@.description,
    {
        copy_opt(&self.description)
    }

    fn image_id(&self) -> (r: Option<String>)
        ensures
            opt_str(r) == Some(artwork_link(self.id)),
    {
        let mut s = String::from_str("https://www.pixiv.net/artworks/");
        push_decimal(&mut s, self.id);
        Some(s)
    }

    fn image_title(&self) -> (r: Option<String>)
        ensures
            opt_str(r) == self@.title,
    {
        copy_opt(&self.title)
    }
}

} // verus!
