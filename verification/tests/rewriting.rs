use slack_splitter::downloader::chunked::Download;
use slack_splitter::split::model::{File, SlackPost};
use slack_splitter::split::rewrite::{
    migrate_legacy, needs_upload, push_to_download, rewrite_entry, rewrite_post, rewrite_posts,
};

fn no_extra() -> serde_json::Map<String, serde_json::Value> {
    serde_json::Map::new()
}

fn file_with(id: &str, name: &str, url_private: &str, url_private_download: &str) -> File {
    File {
        extra: no_extra(),
        is_external: false,
        id: id.to_string(),
        name: name.to_string(),
        url_private: url_private.to_string(),
        url_private_download: url_private_download.to_string(),
    }
}

fn bare_post() -> SlackPost {
    SlackPost { extra: no_extra(), upload: false, file: None, files: vec![] }
}

#[test]
fn url_resolution_prefers_the_download_url() {
    let f = file_with("F1", "a.txt", "http://example.com/p", "http://example.com/d");
    assert_eq!(f.url_for_download(), "http://example.com/d");
    let f = file_with("F1", "a.txt", "http://example.com/p", "");
    assert_eq!(f.url_for_download(), "http://example.com/p");
    let f = file_with("F1", "a.txt", "", "");
    assert_eq!(f.url_for_download(), "");
}

#[test]
fn migration_moves_the_legacy_file_exactly_once() {
    let mut post = bare_post();
    post.files = vec![file_with("F0", "old.txt", "", "")];
    post.file = Some(file_with("F1", "new.txt", "", ""));
    migrate_legacy(&mut post);
    assert!(post.file.is_none());
    assert_eq!(post.files.len(), 2);
    assert_eq!(post.files[1].id, "F1");
}

#[test]
fn migration_with_an_empty_legacy_field_changes_nothing() {
    let mut post = bare_post();
    post.files = vec![file_with("F0", "old.txt", "", "")];
    migrate_legacy(&mut post);
    assert!(post.file.is_none());
    assert_eq!(post.files.len(), 1);
    assert_eq!(post.files[0].id, "F0");
}

#[test]
fn needs_upload_requires_a_resolvable_url() {
    assert!(!needs_upload(&vec![]));
    assert!(!needs_upload(&vec![file_with("F1", "a", "", "")]));
    assert!(needs_upload(&vec![
        file_with("F1", "a", "", ""),
        file_with("F2", "b", "http://example.com/b", ""),
    ]));
}

#[test]
fn external_files_and_empty_urls_never_become_tasks() {
    let mut external = file_with("F1", "a.txt", "http://example.com/a", "");
    external.is_external = true;
    let empty = file_with("F2", "b.txt", "", "");
    let good = file_with("F3", "c.txt", "", "http://example.com/c.txt");
    let mut downloads: Vec<Download> = Vec::new();
    push_to_download(&vec![external, empty, good], &mut downloads);
    assert_eq!(downloads.len(), 1);
    assert_eq!(downloads[0].url, "http://example.com/c.txt");
    assert_eq!(downloads[0].out, "__uploads/F3/c.txt");
    assert!(downloads[0].data.is_empty());
}

#[test]
fn an_unparsable_url_is_skipped_but_the_post_still_uploads() {
    let mut post = bare_post();
    post.files = vec![file_with("F1", "a.txt", "not a url at all", "")];
    let mut downloads: Vec<Download> = Vec::new();
    rewrite_post(&mut post, &mut downloads);
    // the URL is non-empty, so the post is flagged; it parses as no URL,
    // so no task is queued
    assert!(post.upload);
    assert!(downloads.is_empty());
}

#[test]
fn rewrite_flags_posts_and_collects_tasks_in_order() {
    let mut with_file = bare_post();
    with_file.file = Some(file_with("F1", "a.txt", "http://example.com/a.txt", ""));
    let without = bare_post();
    let mut posts = vec![with_file, without];
    let mut downloads: Vec<Download> = Vec::new();
    rewrite_posts(&mut posts, &mut downloads);

    assert!(posts[0].upload);
    assert!(posts[0].file.is_none());
    assert_eq!(posts[0].files.len(), 1);
    assert!(!posts[1].upload);
    assert_eq!(downloads.len(), 1);
    assert_eq!(downloads[0].out, "__uploads/F1/a.txt");
}

#[test]
fn entries_that_are_not_post_arrays_pass_through_byte_for_byte() {
    let original: &[u8] = br#"{"shared": "metadata", "not": ["posts"]}"#;
    let mut downloads: Vec<Download> = Vec::new();
    let out = rewrite_entry(original.to_vec(), &mut downloads).unwrap();
    assert_eq!(out, original);
    assert!(downloads.is_empty());
}

#[test]
fn one_bad_post_passes_the_whole_entry_through_unmodified() {
    // an array whose second element is not a well-formed post: the entry
    // is not post-processed at all
    let original: &[u8] = br#"[{"text": "ok"}, {"upload": "not a bool"}]"#;
    let mut downloads: Vec<Download> = Vec::new();
    let out = rewrite_entry(original.to_vec(), &mut downloads).unwrap();
    assert_eq!(out, original);
    assert!(downloads.is_empty());
}

#[test]
fn rewritten_entries_carry_the_upload_flag_and_the_migrated_file() {
    let original: &[u8] = br#"[{"text": "hi", "file": {"id": "F1", "name": "a.png", "url_private": "http://example.com/a.png"}}]"#;
    let mut downloads: Vec<Download> = Vec::new();
    let out = rewrite_entry(original.to_vec(), &mut downloads).unwrap();

    let v: serde_json::Value = serde_json::from_slice(&out).unwrap();
    let post = &v.as_array().unwrap()[0];
    assert_eq!(post["upload"], true);
    assert!(post["file"].is_null());
    assert_eq!(post["files"].as_array().unwrap().len(), 1);
    assert_eq!(post["files"][0]["id"], "F1");
    assert_eq!(post["text"], "hi");

    assert_eq!(downloads.len(), 1);
    assert_eq!(downloads[0].url, "http://example.com/a.png");
    assert_eq!(downloads[0].out, "__uploads/F1/a.png");
}

#[test]
fn attachment_free_posts_round_trip_without_spurious_flags() {
    let original: &[u8] = br#"[{"text": "one"}, {"text": "two", "ts": "123.45"}]"#;
    let mut downloads: Vec<Download> = Vec::new();
    let out = rewrite_entry(original.to_vec(), &mut downloads).unwrap();
    assert!(downloads.is_empty());

    let v: serde_json::Value = serde_json::from_slice(&out).unwrap();
    let posts = v.as_array().unwrap();
    assert_eq!(posts.len(), 2);
    for post in posts {
        assert_eq!(post["upload"], false);
        assert!(post["file"].is_null());
        assert_eq!(post["files"].as_array().unwrap().len(), 0);
    }
    assert_eq!(posts[0]["text"], "one");
    assert_eq!(posts[1]["text"], "two");
    assert_eq!(posts[1]["ts"], "123.45");
}
