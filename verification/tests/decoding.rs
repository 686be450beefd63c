use neo::listing::{decode_list_body, decode_message};
use neo::{interpret_list_outcome, interpret_plain_outcome, Error, HttpOutcome};

#[test]
fn listing_entries_come_back_in_order() {
    let body = r#"{"files":[
        {"path":"about.html","is_directory":false,"size":316,"updated_at":"Sat, 13 Feb 2016 03:04:00 -0000","sha1_hash":"9493c4b2b98158be08ca2e24c65fec0ab6e0b7d3"},
        {"path":"img","is_directory":true,"updated_at":"Sat, 13 Feb 2016 03:04:01 -0000"},
        {"path":"index.html","is_directory":false,"size":1023,"updated_at":"Sat, 13 Feb 2016 03:04:02 -0000","sha1_hash":"c8aac06f343c962a24a7eb111aad739ff48b7fb1"}
    ]}"#;
    let files = decode_list_body(body).unwrap();
    assert_eq!(files.len(), 3);
    assert_eq!(files[0].path, "about.html");
    assert_eq!(files[0].is_directory, false);
    assert_eq!(files[0].size, Some(316));
    assert_eq!(files[0].updated_at, "Sat, 13 Feb 2016 03:04:00 -0000");
    assert_eq!(
        files[0].sha1_hash.as_deref(),
        Some("9493c4b2b98158be08ca2e24c65fec0ab6e0b7d3")
    );
    assert_eq!(files[1].path, "img");
    assert_eq!(files[1].is_directory, true);
    assert_eq!(files[1].size, None);
    assert_eq!(files[1].sha1_hash, None);
    assert_eq!(files[2].path, "index.html");
}

#[test]
fn directory_entries_carry_neither_size_nor_digest() {
    // Even a body that claims a size for a directory comes back normalized.
    let body = r#"{"files":[{"path":"d","is_directory":true,"size":7,"sha1_hash":"aa","updated_at":"t"}]}"#;
    let files = decode_list_body(body).unwrap();
    assert_eq!(files.len(), 1);
    assert!(files[0].is_directory);
    assert_eq!(files[0].size, None);
    assert_eq!(files[0].sha1_hash, None);
}

#[test]
fn unknown_fields_are_skipped() {
    let body = r#"{"result":"success","extra":{"a":[1,2.5,-3e2,true,null,"x"]},"files":[
        {"path":"a.txt","is_directory":false,"size":1,"updated_at":"t","sha1_hash":"h","mood":null}
    ],"trailing":42}"#;
    let files = decode_list_body(body).unwrap();
    assert_eq!(files.len(), 1);
    assert_eq!(files[0].path, "a.txt");
}

#[test]
fn an_empty_listing_decodes_to_no_entries() {
    let files = decode_list_body(r#"{"files":[]}"#).unwrap();
    assert_eq!(files.len(), 0);
}

#[test]
fn a_listing_without_files_is_refused() {
    assert!(decode_list_body(r#"{"result":"success"}"#).is_none());
}

#[test]
fn a_listing_with_a_missing_required_field_is_refused() {
    let body = r#"{"files":[{"path":"a.txt","is_directory":false}]}"#;
    assert!(decode_list_body(body).is_none());
}

#[test]
fn trailing_text_after_the_body_is_refused() {
    assert!(decode_list_body(r#"{"files":[]} trailing"#).is_none());
}

#[test]
fn string_escapes_are_decoded() {
    let body = "{\"message\":\"q\\\"x\\n\\u0042\\\\\"}";
    assert_eq!(decode_message(body), "q\"x\nB\\");
}

#[test]
fn an_unparseable_error_body_yields_an_empty_message() {
    assert_eq!(decode_message("not json at all"), "");
    assert_eq!(decode_message(""), "");
    assert_eq!(decode_message(r#"{"message":5}"#), "");
}

#[test]
fn a_non_2xx_response_surfaces_status_and_message() {
    let o = HttpOutcome::Response(404, r#"{"message":"file not found"}"#.to_string());
    match interpret_list_outcome(o) {
        Err(Error::Api(status, message)) => {
            assert_eq!(status, 404);
            assert_eq!(message, "file not found");
        }
        other => panic!("expected an api error, got {:?}", discriminant_name(&other)),
    }
}

#[test]
fn a_non_2xx_response_with_a_bad_body_still_surfaces_the_status() {
    let o = HttpOutcome::Response(500, "<html>oops</html>".to_string());
    match interpret_list_outcome(o) {
        Err(Error::Api(status, message)) => {
            assert_eq!(status, 500);
            assert_eq!(message, "");
        }
        other => panic!("expected an api error, got {:?}", discriminant_name(&other)),
    }
}

#[test]
fn a_connection_failure_surfaces_as_transport() {
    let o = HttpOutcome::Failure("connection refused".to_string());
    match interpret_plain_outcome(o) {
        Err(Error::Transport(d)) => assert_eq!(d, "connection refused"),
        other => panic!("expected a transport error, got {:?}", discriminant_name(&other)),
    }
}

#[test]
fn a_2xx_write_response_is_success_without_decoding() {
    let o = HttpOutcome::Response(200, "whatever the service says".to_string());
    assert!(interpret_plain_outcome(o).is_ok());
}

#[test]
fn a_malformed_success_listing_is_a_decode_error() {
    let o = HttpOutcome::Response(200, "junk".to_string());
    match interpret_list_outcome(o) {
        Err(Error::Decode) => {}
        other => panic!("expected a decode error, got {:?}", discriminant_name(&other)),
    }
}

fn discriminant_name<T>(r: &Result<T, Error>) -> &'static str {
    match r {
        Ok(_) => "ok",
        Err(Error::Api(_, _)) => "api",
        Err(Error::Transport(_)) => "transport",
        Err(Error::Path(_)) => "path",
        Err(Error::Decode) => "decode",
    }
}

#[test]
fn a_size_too_large_for_the_machine_is_refused() {
    let body = r#"{"files":[{"path":"a","is_directory":false,"size":99999999999999999999999999,"updated_at":"t","sha1_hash":"h"}]}"#;
    assert!(decode_list_body(body).is_none());
}

#[test]
fn a_negative_size_is_refused() {
    let body = r#"{"files":[{"path":"a","is_directory":false,"size":-1,"updated_at":"t","sha1_hash":"h"}]}"#;
    assert!(decode_list_body(body).is_none());
}

#[test]
fn a_repeated_key_keeps_its_last_value() {
    let body = r#"{"files":[{"path":"old","path":"new","is_directory":false,"size":1,"updated_at":"t","sha1_hash":"h"}]}"#;
    let files = decode_list_body(body).unwrap();
    assert_eq!(files[0].path, "new");
}

#[test]
fn a_lone_escaped_surrogate_is_refused() {
    assert_eq!(decode_message("{\"message\":\"\\uD800\"}"), "");
    assert_eq!(decode_message("{\"message\":\"\\uDE00\"}"), "");
}

#[test]
fn an_escaped_surrogate_pair_decodes_to_one_character() {
    assert_eq!(decode_message("{\"message\":\"\\uD83D\\uDE00\"}"), "\u{1F600}");
    let body = "{\"files\":[{\"path\":\"\\uD83D\\uDE00.txt\",\"is_directory\":false,\"size\":1,\"updated_at\":\"t\",\"sha1_hash\":\"h\"}]}";
    let files = decode_list_body(body).unwrap();
    assert_eq!(files[0].path, "\u{1F600}.txt");
}

#[test]
fn whitespace_between_tokens_is_accepted() {
    let body = " {\n\t\"files\" : [ { \"path\" : \"a\" , \"is_directory\" : false , \"size\" : 0 , \"updated_at\" : \"t\" , \"sha1_hash\" : null } ] } \r\n";
    let files = decode_list_body(body).unwrap();
    assert_eq!(files.len(), 1);
    assert_eq!(files[0].path, "a");
    assert_eq!(files[0].size, Some(0));
    assert_eq!(files[0].sha1_hash, None);
}
