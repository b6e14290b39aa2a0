use bus_runtime::subject::{consumer_name, exec_subject, request_id, response_subject, stream_subjects};

#[test]
fn request_id_is_last_segment() {
    assert_eq!(request_id("proj.fn.exec.v1.req-42"), Some("req-42".to_string()));
    assert_eq!(request_id("a.b.c.d.x"), Some("x".to_string()));
}

#[test]
fn request_id_of_empty_trailing_segment_is_none() {
    assert_eq!(request_id("a.b.c.d."), None);
    assert_eq!(request_id(""), None);
    assert_eq!(request_id("."), None);
}

#[test]
fn request_id_without_dot_is_whole_subject() {
    assert_eq!(request_id("single"), Some("single".to_string()));
}

#[test]
fn subjects_are_built_from_names() {
    assert_eq!(response_subject("proj", "fn", "v1", "req-42"), "proj.fn.res.v1.req-42");
    assert_eq!(exec_subject("proj", "fn", "rs"), "proj.fn.exec.rs.*");
    assert_eq!(stream_subjects("proj"), "proj.>");
    assert_eq!(consumer_name("proj", "fn"), "proj-fn");
}
