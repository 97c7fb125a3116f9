use slack_splitter::split::paths::{
    archive_file_name, basename_str, decimal_string, find_first, first_segment_str, output_name,
    padded3_string, str_ends_with, str_eq, upload_path,
};

#[test]
fn decimal_rendering() {
    assert_eq!(decimal_string(0), "0");
    assert_eq!(decimal_string(7), "7");
    assert_eq!(decimal_string(42), "42");
    assert_eq!(decimal_string(1234), "1234");
}

#[test]
fn three_place_padding() {
    assert_eq!(padded3_string(0), "000");
    assert_eq!(padded3_string(9), "009");
    assert_eq!(padded3_string(12), "012");
    assert_eq!(padded3_string(100), "100");
    assert_eq!(padded3_string(1234), "1234");
}

#[test]
fn output_names_follow_the_fixed_layout() {
    assert_eq!(output_name("channels", 0, "export.zip"), "channels_000_export.zip");
    assert_eq!(output_name("directs", 17, "export.zip"), "directs_017_export.zip");
}

#[test]
fn upload_paths_follow_the_fixed_layout() {
    assert_eq!(upload_path("F1", "pic.png"), "__uploads/F1/pic.png");
}

#[test]
fn archive_names_fall_back_when_the_path_has_no_base() {
    assert_eq!(archive_file_name("backups/export.zip", "channels.zip"), "export.zip");
    assert_eq!(archive_file_name("export.zip", "channels.zip"), "export.zip");
    assert_eq!(archive_file_name("backups/", "channels.zip"), "channels.zip");
}

#[test]
fn path_helpers() {
    assert_eq!(basename_str("a/b/c.json"), "c.json");
    assert_eq!(basename_str("c.json"), "c.json");
    assert_eq!(first_segment_str("C1/2024-01-01.json"), "C1");
    assert_eq!(first_segment_str("plain.json"), "plain.json");
    assert_eq!(find_first("a?b", '?'), 1);
    assert_eq!(find_first("ab", '?'), 2);
    assert!(str_eq("same", "same"));
    assert!(!str_eq("same", "sane"));
    assert!(str_ends_with("C1/p.json", ".json"));
    assert!(!str_ends_with("C1/p.jsonx", ".json"));
    assert!(!str_ends_with("on", ".json"));
}
