use slack_splitter::split::config::Config;
use slack_splitter::split::partition::split_to_chunks;
use slack_splitter::split::scan::Group;
use slack_splitter::split::splitter::Splitter;

fn config(num_chunks: usize) -> Config {
    Config {
        slack_archive: String::from("backups/export.zip"),
        output: String::from("out"),
        chunk_size: 100,
        num_chunks,
        concurrent: 5,
        skip_downloading: false,
        skip_directs: false,
        skip_channels: false,
    }
}

fn entries(names: &[&str]) -> Vec<(String, usize)> {
    names.iter().enumerate().map(|(i, n)| (n.to_string(), i)).collect()
}

fn group(id: &str) -> Group {
    Group { id: id.to_string(), files: vec![(format!("{}/p.json", id), 0)] }
}

#[test]
fn scan_classifies_shared_grouped_and_ignored_entries() {
    let mut splitter = Splitter::new(config(1));
    splitter.scan_files(&entries(&[
        "users.json",
        "channels.json",
        "dms.json",
        "C1/2024-01-01.json",
        "C1/2024-01-02.json",
        "C2/2024-01-01.json",
        "notes.txt",
        "img.png",
    ]));

    let shared: Vec<(String, usize)> = splitter.shared_files_idx.clone();
    assert_eq!(
        shared,
        vec![
            ("users.json".to_string(), 0),
            ("channels.json".to_string(), 1),
            ("dms.json".to_string(), 2),
        ]
    );

    assert_eq!(splitter.grouped_files_idx.len(), 2);
    assert_eq!(splitter.grouped_files_idx[0].id, "C1");
    assert_eq!(
        splitter.grouped_files_idx[0].files,
        vec![("C1/2024-01-01.json".to_string(), 3), ("C1/2024-01-02.json".to_string(), 4)]
    );
    assert_eq!(splitter.grouped_files_idx[1].id, "C2");
    assert_eq!(splitter.grouped_files_idx[1].files, vec![("C2/2024-01-01.json".to_string(), 5)]);
}

#[test]
fn scan_keeps_the_last_shared_entry_per_name() {
    let mut splitter = Splitter::new(config(1));
    splitter.scan_files(&entries(&["users.json", "users.json"]));
    assert_eq!(splitter.shared_files_idx, vec![("users.json".to_string(), 1)]);
}

#[test]
fn partition_balances_five_groups_over_two_chunks() {
    let groups = vec![group("A"), group("B"), group("C"), group("D"), group("E")];
    let chunks = split_to_chunks(&groups, 2);
    // ceil(5/2) = 3: one full chunk of three, a final chunk of two
    assert_eq!(chunks.len(), 2);
    assert_eq!(chunks[0].items.len(), 3);
    assert_eq!(chunks[1].items.len(), 2);
    let ids: Vec<String> =
        chunks.iter().flat_map(|c| c.items.iter().map(|it| it.id.clone())).collect();
    assert_eq!(ids, vec!["A", "B", "C", "D", "E"]);
    assert_eq!(chunks[0].items[0].files, vec![("A/p.json".to_string(), 0)]);
}

#[test]
fn partition_of_divisible_input_fills_every_chunk() {
    let groups = vec![group("A"), group("B"), group("C"), group("D")];
    let chunks = split_to_chunks(&groups, 2);
    assert_eq!(chunks.len(), 2);
    assert_eq!(chunks[0].items.len(), 2);
    assert_eq!(chunks[1].items.len(), 2);
}

#[test]
fn partition_never_divides_by_zero() {
    let groups = vec![group("A"), group("B")];
    let chunks = split_to_chunks(&groups, 0);
    assert_eq!(chunks.len(), 1);
    assert_eq!(chunks[0].items.len(), 2);
}

#[test]
fn partition_of_nothing_is_no_chunks() {
    let chunks = split_to_chunks(&Vec::new(), 3);
    assert!(chunks.is_empty());
}

#[test]
fn partition_with_more_chunks_than_groups() {
    let groups = vec![group("A"), group("B")];
    let chunks = split_to_chunks(&groups, 5);
    // ceil(2/5) = 1 key per chunk: two chunks, not five
    assert_eq!(chunks.len(), 2);
    assert_eq!(chunks[0].items.len(), 1);
    assert_eq!(chunks[1].items.len(), 1);
}

#[test]
fn fetch_directs_claims_groups_and_reports_missing_ids() {
    let mut splitter = Splitter::new(config(1));
    splitter.scan_files(&entries(&[
        "users.json",
        "dms.json",
        "D1/a.json",
        "C1/a.json",
        "D2/a.json",
    ]));
    assert_eq!(splitter.dms_index(), Ok(1));

    let dms = br#"[
        {"id": "D1", "members": ["U1", "U2"]},
        {"id": "D2", "members": ["U1", "U3"]},
        {"id": "D9", "members": ["U4"]}
    ]"#;
    let missing = splitter.fetch_directs(dms).unwrap();
    assert_eq!(missing, vec!["D9".to_string()]);
    assert_eq!(splitter.directs.len(), 3);

    let direct_ids: Vec<String> = splitter.direct_files_idx.iter().map(|g| g.id.clone()).collect();
    assert_eq!(direct_ids, vec!["D1", "D2"]);
    let remaining: Vec<String> = splitter.grouped_files_idx.iter().map(|g| g.id.clone()).collect();
    assert_eq!(remaining, vec!["C1"]);
}

#[test]
fn fetch_directs_rejects_a_malformed_dm_directory() {
    let mut splitter = Splitter::new(config(1));
    splitter.scan_files(&entries(&["dms.json", "D1/a.json"]));
    assert!(splitter.fetch_directs(b"{\"not\": \"an array\"}").is_err());
    assert!(splitter.fetch_directs(br#"[{"members": []}]"#).is_err());
    assert!(splitter.fetch_directs(br#"[{"id": "D1"}]"#).is_err());
    // nothing was claimed
    assert_eq!(splitter.grouped_files_idx.len(), 1);
    assert!(splitter.direct_files_idx.is_empty());
}

#[test]
fn fatal_errors_carry_their_reports() {
    let mut splitter = Splitter::new(config(1));
    splitter.scan_files(&entries(&["C1/a.json"]));
    let err = splitter.dms_index().unwrap_err();
    assert_eq!(err.message(), "dms.json not found in shared files");
}

#[test]
fn missing_dm_directory_is_fatal() {
    let mut splitter = Splitter::new(config(1));
    splitter.scan_files(&entries(&["users.json", "C1/a.json"]));
    assert!(splitter.dms_index().is_err());
}
