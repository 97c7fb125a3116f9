use slack_splitter::split::codec::{
    file_from_value, file_to_value, parse_posts, post_from_value, post_to_value, serialize_posts,
};
use slack_splitter::split::model::{File, SlackPost};

fn extra_of(json: &str) -> serde_json::Map<String, serde_json::Value> {
    serde_json::from_str(json).unwrap()
}

fn plain_file(extra: serde_json::Map<String, serde_json::Value>) -> File {
    File {
        extra,
        is_external: false,
        id: String::from("F12345"),
        name: String::from("example.txt"),
        url_private: String::new(),
        url_private_download: String::new(),
    }
}

#[test]
fn test_slack_post_serialization() {
    let file = plain_file(extra_of("{}"));
    let file_again = plain_file(extra_of("{}"));
    let slack_post = SlackPost {
        extra: extra_of(r#"{"channel": "C12345", "user": "U12345"}"#),
        upload: false,
        file: Some(file),
        files: vec![file_again],
    };
    let expected_extra = slack_post.extra.clone();

    let serialized = serde_json::to_vec(&post_to_value(slack_post)).unwrap();
    let reparsed: serde_json::Value = serde_json::from_slice(&serialized).unwrap();
    let deserialized = post_from_value(reparsed).unwrap();

    assert_eq!(deserialized.extra, expected_extra);
    let legacy = deserialized.file.unwrap();
    assert_eq!(legacy.id, "F12345");
    assert_eq!(legacy.name, "example.txt");
    assert_eq!(deserialized.files.len(), 1);
    assert_eq!(deserialized.files[0].id, "F12345");
    assert_eq!(deserialized.files[0].name, "example.txt");
}

#[test]
fn test_file_serialization() {
    let file = plain_file(extra_of(r#"{"size": 1024}"#));
    let expected_extra = file.extra.clone();

    let serialized = serde_json::to_vec(&file_to_value(file)).unwrap();
    let reparsed: serde_json::Value = serde_json::from_slice(&serialized).unwrap();
    let deserialized = file_from_value(reparsed).unwrap();

    assert_eq!(deserialized.extra, expected_extra);
    assert_eq!(deserialized.id, "F12345");
    assert_eq!(deserialized.name, "example.txt");
    assert!(!deserialized.is_external);
}

#[test]
fn parse_posts_accepts_defaults_and_rejects_bad_shapes() {
    let posts = parse_posts(br#"[{"text": "hi"}]"#).unwrap();
    assert_eq!(posts.len(), 1);
    assert!(!posts[0].upload);
    assert!(posts[0].file.is_none());
    assert!(posts[0].files.is_empty());

    // not an array, not JSON, or a typed field with the wrong shape: no parse
    assert!(parse_posts(br#"{"text": "hi"}"#).is_none());
    assert!(parse_posts(b"not json").is_none());
    assert!(parse_posts(br#"[{"upload": "yes"}]"#).is_none());
    assert!(parse_posts(br#"[{"files": {}}]"#).is_none());
    assert!(parse_posts(br#"[{"file": 3}]"#).is_none());

    // a null legacy field is an absent one
    let posts = parse_posts(br#"[{"file": null}]"#).unwrap();
    assert!(posts[0].file.is_none());
}

#[test]
fn serialize_posts_writes_the_typed_fields() {
    let post = SlackPost {
        extra: extra_of(r#"{"text": "hello"}"#),
        upload: true,
        file: None,
        files: vec![],
    };
    let bytes = serialize_posts(vec![post]).unwrap();
    let v: serde_json::Value = serde_json::from_slice(&bytes).unwrap();
    let arr = v.as_array().unwrap();
    assert_eq!(arr.len(), 1);
    assert_eq!(arr[0]["text"], "hello");
    assert_eq!(arr[0]["upload"], true);
    // an absent legacy field stays absent
    assert!(arr[0].as_object().unwrap().get("file").is_none());
    assert_eq!(arr[0]["files"], serde_json::Value::Array(vec![]));
}
