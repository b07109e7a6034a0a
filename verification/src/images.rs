//! Launch images: which file extension a downloaded image gets, the file it
//! is saved to, and the list of downloaded image files by id.
use vstd::prelude::*;

use crate::string_map::{StringMap, insert_all, keys_unique, pairs_map};
use crate::text::{lemma_split_nonempty, split_at_char, split_chars, str_eq, string_views};

verus! {

/// The extension that the last `.`-separated piece of an image's URL gives:
/// `png` for "png", `jpg` for "jpeg", "jpg", "JPEG" and "JPG", none else.
pub open spec fn extension_from_url(url: Seq<char>) -> Option<Seq<char>> {
    let last = split_at_char(url, '.').last();
    if last == "png"@ {
        Some("png"@)
    } else if last == "jpeg"@ || last == "jpg"@ || last == "JPEG"@ || last == "JPG"@ {
        Some("jpg"@)
    } else {
        None
    }
}

/// The extension of a downloaded image: by its content type when that is
/// `image/jpeg`, `image/jpg` (`jpg`) or `image/png` (`png`), and otherwise
/// by its URL; none when neither tells.
pub open spec fn image_extension_spec(content_type: Option<Seq<char>>, url: Seq<char>) -> Option<
    Seq<char>,
> {
    match content_type {
        Some(c) => if c == "image/jpeg"@ || c == "image/jpg"@ {
            Some("jpg"@)
        } else if c == "image/png"@ {
            Some("png"@)
        } else {
            extension_from_url(url)
        },
        None => extension_from_url(url),
    }
}

pub open spec fn str_opt_view(s: Option<&str>) -> Option<Seq<char>> {
    match s {
        Some(v) => Some(v@),
        None => None,
    }
}

fn extension_from_url_exec(url: &str) -> (r: Option<&'static str>)
    ensures
        str_opt_view(r) == extension_from_url(url@),
{
    let pieces = split_chars(url, '.');
    proof {
        lemma_split_nonempty(url@, '.');
    }
    let last = pieces[pieces.len() - 1].as_str();
    assert(last@ == split_at_char(url@, '.').last());
    if str_eq(last, "png") {
        Some("png")
    } else if str_eq(last, "jpeg") || str_eq(last, "jpg") || str_eq(last, "JPEG") || str_eq(
        last,
        "JPG",
    ) {
        Some("jpg")
    } else {
        None
    }
}

/// The extension to save a downloaded image under (see
/// `image_extension_spec`), from the response's content type and the URL.
pub fn image_extension(content_type: Option<&str>, url: &str) -> (r: Option<&'static str>)
    ensures
        str_opt_view(r) == image_extension_spec(str_opt_view(content_type), url@),
{
    match content_type {
        Some(c) => {
            if str_eq(c, "image/jpeg") || str_eq(c, "image/jpg") {
                Some("jpg")
            } else if str_eq(c, "image/png") {
                Some("png")
            } else {
                extension_from_url_exec(url)
            }
        },
        None => extension_from_url_exec(url),
    }
}

/// The file a downloaded image is saved to: `{id}.{extension}`.
pub fn image_file_name(id: &str, extension: &str) -> (r: String)
    ensures
        r@ == id@ + "."@ + extension@,
{
    let mut name = String::from_str(id);
    name.append(".");
    name.append(extension);
    name
}

/// The downloaded image files, by the id of the notification that shows them.
pub struct DownloadedImages {
    map: StringMap<String>,
}

pub open spec fn path_views(m: Map<Seq<char>, String>) -> Map<Seq<char>, Seq<char>> {
    m.map_values(|p: String| p@)
}

impl View for DownloadedImages {
    type V = Map<Seq<char>, Seq<char>>;

    closed spec fn view(&self) -> Map<Seq<char>, Seq<char>> {
        path_views(self.map@)
    }
}

impl DownloadedImages {
    /// The invariant: one path per id.
    pub closed spec fn wf(&self) -> bool {
        self.map.wf()
    }

    pub fn new() -> (r: Self)
        ensures
            r.wf(),
            r@ == Map::<Seq<char>, Seq<char>>::empty(),
    {
        let r = DownloadedImages { map: StringMap::new() };
        assert(r@ =~= Map::<Seq<char>, Seq<char>>::empty());
        r
    }

    /// The images given as (id, path) pairs; a later pair replaces an
    /// earlier one with the same id.
    pub fn from_entries(pairs: Vec<(String, String)>) -> (r: Self)
        ensures
            r.wf(),
            r@ == path_views(insert_all(pairs@)),
    {
        DownloadedImages { map: StringMap::from_entries(pairs) }
    }

    /// The images as (id, path) pairs, ids distinct.
    pub fn into_entries(self) -> (pairs: Vec<(String, String)>)
        requires
            self.wf(),
        ensures
            keys_unique(pairs@),
            path_views(pairs_map(pairs@)) == self@,
    {
        self.map.into_entries()
    }

    /// Records that the image of notification `id` was saved at `path`.
    pub fn add(&mut self, id: String, path: String)
        requires
            old(self).wf(),
        ensures
            final(self).wf(),
            final(self)@ == old(self)@.insert(id@, path@),
    {
        let ghost p = path;
        self.map.insert(id, path);
        assert(self@ =~= old(self)@.insert(id@, p@));
    }

    /// Forgets the image of notification `id`.
    pub fn remove(&mut self, id: &str)
        requires
            old(self).wf(),
        ensures
            final(self).wf(),
            final(self)@ == old(self)@.remove(id@),
    {
        let _ = self.map.remove(id);
        assert(self@ =~= old(self)@.remove(id@));
    }
}

} // verus!
