use slack_splitter::downloader::chunked::{
    collect_results, needs_fetch, settle, staged_artifacts, Download, DownloaderClient,
    FetchOutcome,
};
use slack_splitter::downloader::streamed;
use slack_splitter::downloader::streamed::FileInfo;

fn task(url: &str, out: &str) -> Download {
    Download { url: url.to_string(), out: out.to_string(), data: vec![] }
}

#[test]
fn placeholders_are_never_fetched() {
    assert!(needs_fetch(&task("http://example.com/a", "a")));
    assert!(!needs_fetch(&task("", "a")));
}

#[test]
fn settling_keeps_the_destination_and_takes_the_body() {
    let fetched = settle(&task("http://example.com/a", "out/a"), FetchOutcome::Fetched(vec![1, 2]));
    assert_eq!(fetched.out, "out/a");
    assert_eq!(fetched.data, vec![1, 2]);
    let failed = settle(&task("http://example.com/a", "out/a"), FetchOutcome::Failed);
    assert_eq!(failed.out, "out/a");
    assert!(failed.data.is_empty());
}

#[test]
fn one_failed_download_never_costs_the_succeeding_one() {
    let downloads = vec![
        task("http://bad.example.com/always-fails", "__uploads/F1/bad.txt"),
        task("http://example.com/good.txt", "__uploads/F2/good.txt"),
    ];
    let outcomes = vec![FetchOutcome::Failed, FetchOutcome::Fetched(b"payload".to_vec())];

    let results = collect_results(&downloads, outcomes);
    assert_eq!(results.len(), 2);

    let outcomes = vec![FetchOutcome::Failed, FetchOutcome::Fetched(b"payload".to_vec())];
    let artifacts = staged_artifacts(&downloads, outcomes);
    assert_eq!(artifacts.len(), 1);
    assert_eq!(artifacts[0].0, "__uploads/F2/good.txt");
    assert_eq!(artifacts[0].1, b"payload".to_vec());
}

#[test]
fn an_empty_url_still_stages_a_zero_length_artifact() {
    let downloads = vec![task("", "__uploads/F1/empty.bin")];
    let artifacts = staged_artifacts(&downloads, vec![FetchOutcome::Failed]);
    assert_eq!(artifacts.len(), 1);
    assert_eq!(artifacts[0].0, "__uploads/F1/empty.bin");
    assert!(artifacts[0].1.is_empty());
}

#[test]
fn clients_hold_their_work_lists() {
    let downloads = vec![task("http://example.com/a", "a")];
    let client = DownloaderClient::new(&downloads);
    assert_eq!(client.downloads.len(), 1);

    let urls = vec!["http://example.com/a".to_string()];
    let dir = String::from("out");
    let client = streamed::DownloaderClient::new(&urls, &dir);
    assert_eq!(client.urls.len(), 1);
    assert_eq!(client.path, "out");
}

#[test]
fn streamed_target_names_strip_the_query() {
    let dir = String::from("out");
    let info = FileInfo::new("http://example.com/files/report.pdf?token=abc", &dir);
    assert_eq!(info.final_path, "out/report.pdf");
    let info = FileInfo::new("http://example.com/plain.bin", &dir);
    assert_eq!(info.final_path, "out/plain.bin");
}
