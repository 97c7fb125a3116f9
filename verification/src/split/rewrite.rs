use crate::downloader::chunked::Download;
use crate::split::codec::{parse_posts, serialize_posts, spec_parse_posts, spec_render_posts};
use crate::split::model::{
    all_tasks, download_views, eligible, file_views, migrated, model_needs_upload, model_url,
    post_tasks, post_views, rewritten, rewritten_all, spec_tasks, task_of, File, SlackPost,
    SplitError,
};
use crate::split::paths::upload_path;
use crate::split::urls::url_parses;
use vstd::prelude::*;
use vstd::string::*;

verus! {

/// Migrate the legacy single-attachment field: when present, its file is
/// appended to the attachment list and the field is cleared.
pub fn migrate_legacy(post: &mut SlackPost)
    ensures
        final(post)@ == migrated(old(post)@),
{
    let legacy = post.file.take();
    match legacy {
        Some(f) => {
            post.files.push(f);
            proof {
                assert(post@.files =~= migrated(old(post)@).files);
            }
        },
        None => {
            proof {
                assert(post@ == migrated(old(post)@));
            }
        },
    }
}

/// Whether the attachment list qualifies its post for rehydration: it is
/// non-empty and at least one attachment resolves to a download URL.
pub fn needs_upload(files: &Vec<File>) -> (r: bool)
    ensures
        r == model_needs_upload(file_views(files@)),
{
    let mut i: usize = 0;
    while i < files.len()
        invariant
            i <= files@.len(),
            forall|j: int| 0 <= j < i ==> model_url(#[trigger] file_views(files@)[j]).len() == 0,
        decreases files@.len() - i,
    {
        let url = files[i].url_for_download();
        if !url.as_str().is_empty() {
            proof {
                assert(model_url(file_views(files@)[i as int]).len() > 0);
            }
            return true;
        }
        i += 1;
    }
    false
}

/// Append one download work item per eligible attachment: not externally
/// hosted, a resolvable URL, and that URL well-formed. Everything else is
/// skipped, the ineligible attachment as much as the unparsable URL.
pub fn push_to_download(files: &Vec<File>, downloads: &mut Vec<Download>)
    ensures
        download_views(final(downloads)@) == download_views(old(downloads)@) + spec_tasks(
            file_views(files@),
        ),
{
    let ghost orig = old(downloads)@;
    let ghost fv = file_views(files@);
    let mut i: usize = 0;
    while i < files.len()
        invariant
            i <= files@.len(),
            fv == file_views(files@),
            download_views(downloads@) == download_views(orig) + spec_tasks(fv.take(i as int)),
        decreases files@.len() - i,
    {
        let ghost pre = downloads@;
        let f = &files[i];
        let url = f.url_for_download();
        if !f.is_external && !url.as_str().is_empty() {
            if url_parses(url.as_str()) {
                let out = upload_path(f.id.as_str(), f.name.as_str());
                let data: Vec<u8> = Vec::new();
                downloads.push(Download { url, out, data });
                proof {
                    assert(eligible(fv[i as int]));
                    assert(downloads@.last()@ == task_of(fv[i as int]));
                    assert(download_views(downloads@) =~= download_views(pre) + seq![
                        task_of(fv[i as int]),
                    ]);
                }
            } else {
                proof {
                    assert(!eligible(fv[i as int]));
                }
            }
        } else {
            proof {
                assert(!eligible(fv[i as int]));
            }
        }
        proof {
            assert(fv.take(i as int + 1).drop_last() =~= fv.take(i as int));
            assert(fv.take(i as int + 1).last() == fv[i as int]);
            if eligible(fv[i as int]) {
                assert(download_views(downloads@) =~= download_views(orig) + spec_tasks(
                    fv.take(i as int + 1),
                ));
            } else {
                assert(spec_tasks(fv.take(i as int + 1)) =~= spec_tasks(fv.take(i as int)));
            }
        }
        i += 1;
    }
    proof {
        assert(fv.take(files@.len() as int) =~= fv);
    }
}

/// The whole per-post rewrite: migrate the legacy field; when the post
/// then needs rehydration, set its upload flag and append its download
/// work items.
pub fn rewrite_post(post: &mut SlackPost, downloads: &mut Vec<Download>)
    ensures
        final(post)@ == rewritten(old(post)@),
        download_views(final(downloads)@) == download_views(old(downloads)@) + post_tasks(
            old(post)@,
        ),
{
    migrate_legacy(post);
    if needs_upload(&post.files) {
        post.upload = true;
        push_to_download(&post.files, downloads);
    } else {
        proof {
            assert(download_views(downloads@) =~= download_views(old(downloads)@) + post_tasks(
                old(post)@,
            ));
        }
    }
}

/// Rewrite every post of one entry, in order, collecting the download
/// work items each contributes.
pub fn rewrite_posts(posts: &mut Vec<SlackPost>, downloads: &mut Vec<Download>)
    ensures
        post_views(final(posts)@) == rewritten_all(post_views(old(posts)@)),
        download_views(final(downloads)@) == download_views(old(downloads)@) + all_tasks(
            post_views(old(posts)@),
        ),
{
    let ghost orig = old(posts)@;
    let ghost odl = old(downloads)@;
    let n = posts.len();
    let mut i: usize = 0;
    while i < n
        invariant
            n == posts@.len(),
            orig.len() == n,
            i <= n,
            forall|j: int| i <= j < n ==> posts@[j] == orig[j],
            forall|j: int| 0 <= j < i ==> (#[trigger] posts@[j])@ == rewritten(orig[j]@),
            download_views(downloads@) == download_views(odl) + all_tasks(
                post_views(orig.take(i as int)),
            ),
        decreases n - i,
    {
        rewrite_post(&mut posts[i], downloads);
        proof {
            assert(post_views(orig.take(i as int + 1)).drop_last() =~= post_views(
                orig.take(i as int),
            ));
            assert(post_views(orig.take(i as int + 1)).last() == orig[i as int]@);
            assert(download_views(downloads@) =~= download_views(odl) + all_tasks(
                post_views(orig.take(i as int + 1)),
            ));
        }
        i += 1;
    }
    proof {
        assert(orig.take(n as int) =~= orig);
        assert(post_views(posts@) =~= rewritten_all(post_views(orig)));
    }
}

/// Rewrite one archive entry. Bytes that do not read as a post array pass
/// through byte for byte with no work items added; bytes that do are
/// rewritten post by post, their work items are appended to `downloads`,
/// and the result is the rendering of the rewritten array. The call never
/// fails: the error arm guards only the rendering, which cannot fail on a
/// JSON document.
pub fn rewrite_entry(buffer: Vec<u8>, downloads: &mut Vec<Download>) -> (r: Result<
    Vec<u8>,
    SplitError,
>)
    ensures
        r is Ok,
        match spec_parse_posts(buffer@) {
            None => final(downloads)@ == old(downloads)@ && (r matches Ok(out) ==> out@
                == buffer@),
            Some(orig) => download_views(final(downloads)@) == download_views(old(downloads)@)
                + all_tasks(orig) && (r matches Ok(out) ==> out@ == spec_render_posts(
                rewritten_all(orig),
            )),
        },
{
    match parse_posts(buffer.as_slice()) {
        None => Ok(buffer),
        Some(posts) => {
            let mut posts = posts;
            let ghost orig = post_views(posts@);
            let mut tasks: Vec<Download> = Vec::new();
            rewrite_posts(&mut posts, &mut tasks);
            match serialize_posts(posts) {
                Some(bytes) => {
                    downloads.append(&mut tasks);
                    proof {
                        assert(download_views(downloads@) =~= download_views(old(downloads)@)
                            + all_tasks(orig));
                    }
                    Ok(bytes)
                },
                None => Err(SplitError::SerializeFailed),
            }
        },
    }
}

} // verus!
