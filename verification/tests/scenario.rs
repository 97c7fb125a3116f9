use slack_splitter::downloader::chunked::{staged_artifacts, Download, FetchOutcome};
use slack_splitter::split::config::Config;
use slack_splitter::split::rewrite::rewrite_entry;
use slack_splitter::split::splitter::Splitter;

fn config(num_chunks: usize) -> Config {
    Config {
        slack_archive: String::from("backups/export.zip"),
        output: String::from("out"),
        chunk_size: 100,
        num_chunks,
        concurrent: 5,
        skip_downloading: false,
        skip_directs: false,
        skip_channels: false,
    }
}

/// A two-conversation archive split into two chunks: each output carries
/// the shared directories and exactly one conversation; the conversation
/// with an attachment gets its upload flag, its download task, and the
/// fetched body staged under the fixed uploads path.
#[test]
fn end_to_end_channel_export() {
    let archive: Vec<(&str, &[u8])> = vec![
        ("channels.json", br#"[{"name": "general"}]"#),
        ("users.json", br#"[{"id": "U1"}]"#),
        (
            "C1/p1.json",
            br#"[{"text": "with file", "files": [{"id": "F9", "name": "pic.png", "url_private_download": "http://example.com/pic.png"}]}]"#,
        ),
        ("C2/p2.json", br#"[{"text": "plain"}]"#),
    ];
    let entries: Vec<(String, usize)> =
        archive.iter().enumerate().map(|(i, e)| (e.0.to_string(), i)).collect();

    let mut splitter = Splitter::new(config(2));
    splitter.scan_files(&entries);
    splitter.split_files_to_chunks();
    assert_eq!(splitter.chunked_files_idx.len(), 2);

    let jobs = splitter.plan_channels_exports();
    assert_eq!(jobs.len(), 2);
    assert_eq!(jobs[0].output_name, "channels_000_export.zip");
    assert_eq!(jobs[1].output_name, "channels_001_export.zip");

    let mut output_archives: Vec<Vec<(String, Vec<u8>)>> = Vec::new();
    for (job, chunk) in jobs.iter().zip(splitter.chunked_files_idx.iter()) {
        let mut written: Vec<(String, Vec<u8>)> = Vec::new();
        let mut downloads: Vec<Download> = Vec::new();
        for (name, idx) in &job.shared {
            let body = rewrite_entry(archive[*idx].1.to_vec(), &mut downloads).unwrap();
            written.push((name.clone(), body));
        }
        for item in &chunk.items {
            for (name, idx) in &item.files {
                let body = rewrite_entry(archive[*idx].1.to_vec(), &mut downloads).unwrap();
                written.push((name.clone(), body));
            }
        }
        for (name, body) in &job.extra_entries {
            written.push((name.clone(), body.clone()));
        }
        // every task settles before the append phase; here the one real
        // URL "fetches" a fixed body
        let outcomes: Vec<FetchOutcome> =
            downloads.iter().map(|_| FetchOutcome::Fetched(b"IMAGE".to_vec())).collect();
        for artifact in staged_artifacts(&downloads, outcomes) {
            written.push(artifact);
        }
        output_archives.push(written);
    }

    let names = |a: &Vec<(String, Vec<u8>)>| a.iter().map(|e| e.0.clone()).collect::<Vec<_>>();
    assert_eq!(
        names(&output_archives[0]),
        vec!["channels.json", "users.json", "C1/p1.json", "__uploads/F9/pic.png"]
    );
    assert_eq!(names(&output_archives[1]), vec!["channels.json", "users.json", "C2/p2.json"]);

    // the attachment body landed intact in the first chunk only
    assert_eq!(output_archives[0][3].1, b"IMAGE".to_vec());

    // C1's post was flagged and its file list carries the attachment
    let c1: serde_json::Value = serde_json::from_slice(&output_archives[0][2].1).unwrap();
    assert_eq!(c1[0]["upload"], true);
    assert_eq!(c1[0]["files"][0]["id"], "F9");
    // C2's post was left alone
    let c2: serde_json::Value = serde_json::from_slice(&output_archives[1][2].1).unwrap();
    assert_eq!(c2[0]["upload"], false);
    // the user directory is an array of objects, so it runs through the
    // rewrite like any post array: its own fields survive and no upload
    // flag is raised
    let users: serde_json::Value = serde_json::from_slice(&output_archives[0][1].1).unwrap();
    assert_eq!(users[0]["id"], "U1");
    assert_eq!(users[0]["upload"], false);
}

/// The directs stream synthesizes a DM directory per chunk, filtered to
/// that chunk's conversations.
#[test]
fn directs_plan_filters_the_dm_directory_per_chunk() {
    let entries: Vec<(String, usize)> = vec![
        ("users.json".to_string(), 0),
        ("dms.json".to_string(), 1),
        ("D1/a.json".to_string(), 2),
        ("D2/b.json".to_string(), 3),
    ];
    let mut splitter = Splitter::new(config(1));
    splitter.scan_files(&entries);
    let dms = br#"[{"id": "D1", "members": ["U1"]}, {"id": "D2", "members": ["U2"]}]"#;
    let missing = splitter.fetch_directs(dms).unwrap();
    assert!(missing.is_empty());

    splitter.split_directs_to_chunks();
    assert_eq!(splitter.chunked_directs_idx.len(), 1);

    let jobs = splitter.plan_directs_exports().unwrap();
    assert_eq!(jobs.len(), 1);
    assert_eq!(jobs[0].output_name, "directs_000_export.zip");
    let shared_names: Vec<String> = jobs[0].shared.iter().map(|p| p.0.clone()).collect();
    assert_eq!(shared_names, vec!["users.json"]);

    assert_eq!(jobs[0].extra_entries.len(), 1);
    assert_eq!(jobs[0].extra_entries[0].0, "dms.json");
    let dm_list: serde_json::Value =
        serde_json::from_slice(&jobs[0].extra_entries[0].1).unwrap();
    let dm_list = dm_list.as_array().unwrap();
    assert_eq!(dm_list.len(), 2);
    assert_eq!(dm_list[0]["id"], "D1");
    assert_eq!(dm_list[0]["members"][0], "U1");
    assert_eq!(dm_list[1]["id"], "D2");
}
