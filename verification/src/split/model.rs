use crate::downloader::chunked::{Download, DownloadModel};
use crate::split::paths::spec_upload_path;
use crate::split::urls::is_parsable_url;
use vstd::prelude::*;
use vstd::string::*;

verus! {

/// One conversation group as assigned to a chunk: its identifier and its
/// member entries as (path, ordinal) pairs into the source archive.
pub struct ChunkItem {
    pub id: String,
    pub files: Vec<(String, usize)>,
}

/// One output archive's worth of conversation groups.
pub struct Chunk {
    pub items: Vec<ChunkItem>,
}

/// One direct-message thread, as listed in the DM directory entry.
pub struct Direct {
    pub id: String,
    pub members: Vec<String>,
}

/// One attachment reference inside a post. `extra` carries every field
/// the rewrite does not read, so re-serialization keeps them.
pub struct File {
    pub extra: serde_json::Map<String, serde_json::Value>,
    pub is_external: bool,
    pub id: String,
    pub name: String,
    pub url_private: String,
    pub url_private_download: String,
}

/// One logged message. `file` is the legacy single-attachment field that
/// rewriting migrates into `files`; `upload` flags a post whose
/// attachments need rehydration.
pub struct SlackPost {
    pub extra: serde_json::Map<String, serde_json::Value>,
    pub upload: bool,
    pub file: Option<File>,
    pub files: Vec<File>,
}

/// The mathematical shape of a `Direct`.
#[verifier::ext_equal]
pub ghost struct DirectModel {
    pub id: Seq<char>,
    pub members: Seq<Seq<char>>,
}

pub open spec fn string_views(strings: Seq<String>) -> Seq<Seq<char>> {
    strings.map_values(|s: String| s@)
}

impl View for Direct {
    type V = DirectModel;

    open spec fn view(&self) -> DirectModel {
        DirectModel { id: self.id@, members: string_views(self.members@) }
    }
}

pub open spec fn direct_views(directs: Seq<Direct>) -> Seq<DirectModel> {
    directs.map_values(|d: Direct| d@)
}

impl Clone for Direct {
    fn clone(&self) -> (r: Self)
        ensures
            r.id == self.id,
            r.members@ == self.members@,
            r@ == self@,
    {
        let mut members: Vec<String> = Vec::new();
        let mut i: usize = 0;
        while i < self.members.len()
            invariant
                i <= self.members@.len(),
                members@ == self.members@.take(i as int),
            decreases self.members@.len() - i,
        {
            members.push(self.members[i].clone());
            proof {
                assert(members@ =~= self.members@.take(i as int + 1));
            }
            i += 1;
        }
        proof {
            assert(self.members@.take(self.members@.len() as int) =~= self.members@);
        }
        Direct { id: self.id.clone(), members }
    }
}

/// A fatal failure of the split run. Anything recoverable (a bad entry, a
/// bad URL, a failed download) is skipped instead and never surfaces here.
#[derive(Debug, PartialEq, Eq)]
pub enum SplitError {
    /// The DM directory entry is missing from the shared set.
    MissingDms,
    /// The DM directory entry does not parse as direct-message records.
    MalformedDms,
    /// A rewritten entry could not be re-serialized.
    SerializeFailed,
}

pub open spec fn spec_message(e: SplitError) -> Seq<char> {
    match e {
        SplitError::MissingDms => "dms.json not found in shared files"@,
        SplitError::MalformedDms => "failed to deserialize dms.json"@,
        SplitError::SerializeFailed => "failed to serialize posts"@,
    }
}

impl SplitError {
    /// What went wrong, for reporting.
    pub fn message(&self) -> (r: String)
        ensures
            r@ == spec_message(*self),
    {
        match self {
            SplitError::MissingDms => String::from_str("dms.json not found in shared files"),
            SplitError::MalformedDms => String::from_str("failed to deserialize dms.json"),
            SplitError::SerializeFailed => String::from_str("failed to serialize posts"),
        }
    }
}

/// The mathematical shape of a `File`.
#[verifier::ext_equal]
pub ghost struct FileModel {
    pub extra: serde_json::Map<String, serde_json::Value>,
    pub is_external: bool,
    pub id: Seq<char>,
    pub name: Seq<char>,
    pub url_private: Seq<char>,
    pub url_private_download: Seq<char>,
}

/// The mathematical shape of a `SlackPost`.
#[verifier::ext_equal]
pub ghost struct PostModel {
    pub extra: serde_json::Map<String, serde_json::Value>,
    pub upload: bool,
    pub file: Option<FileModel>,
    pub files: Seq<FileModel>,
}

impl View for File {
    type V = FileModel;

    open spec fn view(&self) -> FileModel {
        FileModel {
            extra: self.extra,
            is_external: self.is_external,
            id: self.id@,
            name: self.name@,
            url_private: self.url_private@,
            url_private_download: self.url_private_download@,
        }
    }
}

pub open spec fn file_views(files: Seq<File>) -> Seq<FileModel> {
    files.map_values(|f: File| f@)
}

impl View for SlackPost {
    type V = PostModel;

    open spec fn view(&self) -> PostModel {
        PostModel {
            extra: self.extra,
            upload: self.upload,
            file: match self.file {
                Some(f) => Some(f@),
                None => None,
            },
            files: file_views(self.files@),
        }
    }
}

pub open spec fn post_views(posts: Seq<SlackPost>) -> Seq<PostModel> {
    posts.map_values(|p: SlackPost| p@)
}

pub open spec fn download_views(downloads: Seq<Download>) -> Seq<DownloadModel> {
    downloads.map_values(|d: Download| d@)
}

/// The URL an attachment is fetched from: the download URL when present,
/// else the private URL (which may itself be empty).
pub open spec fn model_url(f: FileModel) -> Seq<char> {
    if f.url_private_download.len() > 0 {
        f.url_private_download
    } else {
        f.url_private
    }
}

impl File {
    /// The URL this attachment is fetched from, preferring the download
    /// URL over the private one, empty when neither resolves.
    pub fn url_for_download(&self) -> (r: String)
        ensures
            r@ == model_url(self@),
    {
        if !self.url_private_download.as_str().is_empty() {
            self.url_private_download.clone()
        } else {
            self.url_private.clone()
        }
    }
}

/// Legacy-field migration: the single-attachment field, when present, is
/// appended to the attachment list and cleared.
pub open spec fn migrated(p: PostModel) -> PostModel {
    match p.file {
        Some(f) => PostModel { extra: p.extra, upload: p.upload, file: None, files: p.files.push(f) },
        None => p,
    }
}

/// A post needs rehydration iff it has attachments and at least one of
/// them resolves to a download URL.
pub open spec fn model_needs_upload(files: Seq<FileModel>) -> bool {
    files.len() > 0 && exists|i: int| 0 <= i < files.len() && model_url(files[i]).len() > 0
}

/// The whole per-post rewrite: migrate the legacy field, then flag the
/// post when it needs rehydration.
pub open spec fn rewritten(p: PostModel) -> PostModel {
    let m = migrated(p);
    if model_needs_upload(m.files) {
        PostModel { extra: m.extra, upload: true, file: m.file, files: m.files }
    } else {
        m
    }
}

/// An attachment produces a download task iff it is not externally
/// hosted, its URL resolves, and that URL parses.
pub open spec fn eligible(f: FileModel) -> bool {
    !f.is_external && model_url(f).len() > 0 && is_parsable_url(model_url(f))
}

/// The download task of one attachment: its URL, bound for the staging
/// path, with no body yet.
pub open spec fn task_of(f: FileModel) -> DownloadModel {
    DownloadModel {
        url: model_url(f),
        out: spec_upload_path(f.id, f.name),
        data: Seq::empty(),
    }
}

/// The download work items of one attachment list, in order.
pub open spec fn spec_tasks(files: Seq<FileModel>) -> Seq<DownloadModel>
    decreases files.len(),
{
    if files.len() == 0 {
        Seq::empty()
    } else {
        spec_tasks(files.drop_last()) + (if eligible(files.last()) {
            seq![task_of(files.last())]
        } else {
            Seq::empty()
        })
    }
}

/// The download work items one post contributes: those of its migrated
/// attachment list, but only when the post needs rehydration at all.
pub open spec fn post_tasks(p: PostModel) -> Seq<DownloadModel> {
    let m = migrated(p);
    if model_needs_upload(m.files) {
        spec_tasks(m.files)
    } else {
        Seq::empty()
    }
}

/// A whole post array after rewriting, element for element.
pub open spec fn rewritten_all(posts: Seq<PostModel>) -> Seq<PostModel> {
    posts.map_values(|p: PostModel| rewritten(p))
}

/// The download work items of a whole post array, in post order.
pub open spec fn all_tasks(posts: Seq<PostModel>) -> Seq<DownloadModel>
    decreases posts.len(),
{
    if posts.len() == 0 {
        Seq::empty()
    } else {
        all_tasks(posts.drop_last()) + post_tasks(posts.last())
    }
}

} // verus!
