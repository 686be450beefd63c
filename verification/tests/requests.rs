use neo::encode::{encode_upload_body, final_segment, form_pairs};
use neo::{Client, Error, UploadEntry};

fn contains(haystack: &[u8], needle: &[u8]) -> bool {
    if needle.is_empty() {
        return true;
    }
    if haystack.len() < needle.len() {
        return false;
    }
    for start in 0..=(haystack.len() - needle.len()) {
        if &haystack[start..start + needle.len()] == needle {
            return true;
        }
    }
    false
}

#[test]
fn the_part_name_is_the_final_path_segment() {
    assert_eq!(final_segment("dir/sub/report.txt").as_deref(), Some("report.txt"));
    assert_eq!(final_segment("report.txt").as_deref(), Some("report.txt"));
    assert_eq!(final_segment("dir/").as_deref(), Some("dir"));
}

#[test]
fn a_destination_without_a_final_segment_is_invalid() {
    assert_eq!(final_segment(""), None);
    assert_eq!(final_segment("/"), None);
    assert_eq!(final_segment("///"), None);
    assert_eq!(final_segment(".."), None);
    assert_eq!(final_segment("a/.."), None);
    assert_eq!(final_segment("a/."), None);
}

#[test]
fn the_upload_body_carries_each_part_under_its_derived_name() {
    let entries = vec![
        UploadEntry { dest: "dir/sub/report.txt".to_string(), content: b"hello body".to_vec() },
        UploadEntry { dest: "notes.md".to_string(), content: b"second part".to_vec() },
    ];
    let (boundary, body) = encode_upload_body(&entries).unwrap();
    assert!(!boundary.is_empty());
    assert!(contains(&body, boundary.as_bytes()));
    assert!(contains(&body, b"name=\"report.txt\""));
    assert!(contains(&body, b"hello body"));
    assert!(contains(&body, b"name=\"notes.md\""));
    assert!(contains(&body, b"second part"));
}

#[test]
fn an_invalid_destination_fails_before_anything_is_sent() {
    let entries = vec![
        UploadEntry { dest: "fine.txt".to_string(), content: b"x".to_vec() },
        UploadEntry { dest: "".to_string(), content: b"y".to_vec() },
    ];
    match encode_upload_body(&entries) {
        Err(Error::Path(p)) => assert_eq!(p, ""),
        _ => panic!("expected a path error"),
    }
    // The same failure through the client: no request leaves the process.
    let client = Client::new("unused-key".to_string());
    match client.push(&entries) {
        Err(Error::Path(p)) => assert_eq!(p, ""),
        _ => panic!("expected a path error"),
    }
}

#[test]
fn an_upload_of_zero_entries_is_well_defined() {
    let entries: Vec<UploadEntry> = vec![];
    let (boundary, body) = encode_upload_body(&entries).unwrap();
    assert_eq!(boundary, "NeoEmptyBatchBoundary");
    assert_eq!(body, b"--NeoEmptyBatchBoundary--\r\n");
}

#[test]
fn delete_sends_one_filenames_field_per_path_in_order() {
    let paths = vec!["a.txt".to_string(), "b.txt".to_string()];
    let pairs = form_pairs(&paths);
    assert_eq!(pairs.len(), 2);
    assert_eq!(pairs[0], ("filenames[]", "a.txt"));
    assert_eq!(pairs[1], ("filenames[]", "b.txt"));
}

#[test]
fn deleting_zero_paths_builds_an_empty_form() {
    let paths: Vec<String> = vec![];
    assert_eq!(form_pairs(&paths).len(), 0);
}
