use crate::split::paths::{basename, basename_str, find_first, first_pos};
use vstd::prelude::*;
use vstd::string::*;

verus! {

/// The file a streamed download is saved to, as computed from its URL:
/// the URL's last path segment with any query stripped, under the
/// download directory.
pub open spec fn spec_final_name(url: Seq<char>) -> Seq<char> {
    basename(url).take(first_pos(basename(url), '?'))
}

/// Where one streamed download lands on disk.
pub struct FileInfo {
    pub final_path: String,
}

impl FileInfo {
    pub fn new(url: &str, path: &String) -> (r: Self)
        ensures
            r.final_path@ == path@ + "/"@ + spec_final_name(url@),
    {
        let base = basename_str(url);
        let q = find_first(base, '?');
        proof {
            crate::split::paths::lemma_first_pos(base@, '?');
        }
        let name = base.substring_char(0, q);
        let mut final_path = path.clone();
        final_path.append("/");
        final_path.append(name);
        proof {
            assert(name@ =~= spec_final_name(url@));
        }
        FileInfo { final_path }
    }
}

pub struct DownloaderClient<'a> {
    pub urls: &'a [String],
    pub path: &'a String,
}

impl<'a> DownloaderClient<'a> {
    pub fn new(urls: &'a [String], path: &'a String) -> (r: Self)
        ensures
            r.urls == urls,
            r.path == path,
    {
        Self { urls, path }
    }
}

} // verus!
