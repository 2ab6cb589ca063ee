use tool_web::ingest::{field_disposition, FileSink, IngestError};

#[test]
fn traversal_name_is_rejected_before_any_write() {
    let refused = FileSink::begin(String::from("../../etc/passwd"));
    match refused {
        Err(e) => {
            assert!(e.is_invalid_path());
            assert_eq!(e.status_code(), 400);
            assert_eq!(e.message(), String::from("Invalid path"));
        },
        Ok(_) => panic!("unsafe name was accepted"),
    }
}

#[test]
fn safe_name_begins_an_empty_upload() {
    let sink = FileSink::begin(String::from("f.txt")).unwrap();
    assert_eq!(sink.bytes_written(), 0);
    assert_eq!(sink.file_name(), &String::from("f.txt"));
    assert_eq!(sink.storage_path(), String::from("uploads/f.txt"));
}

#[test]
fn chunks_are_accounted_in_arrival_order() {
    let mut sink = FileSink::begin(String::from("f.txt")).unwrap();
    sink.accept_chunk(b"hello ");
    sink.accept_chunk(b"world");
    sink.accept_chunk(b"");
    assert_eq!(sink.bytes_written(), 11);
}

#[test]
fn io_failure_maps_to_server_error() {
    let e = IngestError::IoFailure(String::from("disk full"));
    assert!(!e.is_invalid_path());
    assert_eq!(e.status_code(), 500);
    assert_eq!(e.message(), String::from("disk full"));
}

#[test]
fn unnamed_multipart_field_is_skipped() {
    assert!(field_disposition(None).is_none());
}

#[test]
fn named_multipart_field_begins_an_upload() {
    match field_disposition(Some(String::from("photo.png"))) {
        Some(Ok(sink)) => assert_eq!(sink.storage_path(), String::from("uploads/photo.png")),
        _ => panic!("named field should begin an upload"),
    }
}

#[test]
fn named_multipart_field_with_unsafe_name_fails() {
    match field_disposition(Some(String::from("a/b"))) {
        Some(Err(e)) => assert!(e.is_invalid_path()),
        _ => panic!("unsafe field name should be refused"),
    }
}
