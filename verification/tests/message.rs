use vane::message::{
    apply_edit, apply_edits, find_header, header_text, remove_header, Header, HeaderEdit,
    ResponseBody, ResponseHead,
};

fn header(name: &str, value: &str) -> Header {
    Header { name: name.to_string(), value: Some(value.to_string()) }
}

fn names(headers: &[Header]) -> Vec<String> {
    headers.iter().map(|h| h.name.clone()).collect()
}

#[test]
fn header_names_ignore_ascii_case() {
    let headers = vec![header("Content-Type", "a"), header("X-One", "1"), header("x-one", "2")];
    assert_eq!(find_header(&headers, "x-one"), Some(1));
    assert_eq!(find_header(&headers, "CONTENT-TYPE"), Some(0));
    assert_eq!(find_header(&headers, "x-two"), None);
    assert_eq!(header_text(&headers, "X-ONE"), Some("1"));
    assert_eq!(header_text(&headers, "missing"), None);
}

#[test]
fn header_without_text_is_present_but_has_no_text() {
    let headers = vec![Header { name: "origin".to_string(), value: None }, header("origin", "x")];
    assert_eq!(find_header(&headers, "origin"), Some(0));
    assert_eq!(header_text(&headers, "origin"), None);
}

#[test]
fn remove_takes_out_every_header_of_the_name() {
    let mut headers =
        vec![header("a", "1"), header("B", "2"), header("A", "3"), header("c", "4")];
    remove_header(&mut headers, "a");
    assert_eq!(names(&headers), vec!["B", "c"]);
    remove_header(&mut headers, "zzz");
    assert_eq!(names(&headers), vec!["B", "c"]);
}

#[test]
fn insert_replaces_and_append_adds() {
    let mut headers = vec![header("vary", "a"), header("x", "1"), header("Vary", "b")];
    apply_edit(&mut headers, &HeaderEdit::Append("vary".to_string(), "c".to_string()));
    assert_eq!(names(&headers), vec!["vary", "x", "Vary", "vary"]);
    apply_edit(&mut headers, &HeaderEdit::Insert("VARY".to_string(), "d".to_string()));
    assert_eq!(names(&headers), vec!["x", "VARY"]);
    assert_eq!(header_text(&headers, "vary"), Some("d"));
    apply_edit(&mut headers, &HeaderEdit::Remove("x".to_string()));
    assert_eq!(names(&headers), vec!["VARY"]);
}

#[test]
fn edits_are_made_in_order() {
    let mut headers = vec![header("a", "1")];
    let edits = vec![
        HeaderEdit::Insert("b".to_string(), "2".to_string()),
        HeaderEdit::Remove("a".to_string()),
        HeaderEdit::Append("a".to_string(), "3".to_string()),
        HeaderEdit::Remove("b".to_string()),
    ];
    apply_edits(&mut headers, &edits);
    assert_eq!(names(&headers), vec!["a"]);
    assert_eq!(header_text(&headers, "a"), Some("3"));
    apply_edits(&mut headers, &Vec::new());
    assert_eq!(names(&headers), vec!["a"]);
}

#[test]
fn page_responses_have_no_headers() {
    let response = ResponseHead::page(426, "upgrade");
    assert_eq!(response.status, 426);
    assert!(response.headers.is_empty());
    assert!(matches!(response.body, ResponseBody::Page(text) if text == "upgrade"));
}
