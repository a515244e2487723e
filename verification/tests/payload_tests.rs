use rust_worker::payload::{extract_optional_string, extract_optional_u64, parse_payload};
use rust_worker::scan::{extract_library_names, ScanError};

#[test]
fn numbers_and_texts_are_read_by_key() {
    let payload = parse_payload(
        "{\"max_files\": 12, \"algorithm\": \"sha256\", \"big\": 18446744073709551615, \"neg\": -1, \"frac\": 1.5, \"nothing\": null}",
    );
    assert_eq!(extract_optional_u64(&payload, "max_files"), Some(12));
    assert_eq!(extract_optional_u64(&payload, "big"), Some(u64::MAX));
    assert_eq!(extract_optional_u64(&payload, "neg"), None);
    assert_eq!(extract_optional_u64(&payload, "frac"), None);
    assert_eq!(extract_optional_u64(&payload, "algorithm"), None);
    assert_eq!(extract_optional_u64(&payload, "missing"), None);
    assert_eq!(extract_optional_u64(&payload, "nothing"), None);
    assert_eq!(extract_optional_string(&payload, "algorithm"), Some("sha256".to_string()));
    assert_eq!(extract_optional_string(&payload, "max_files"), None);
    assert_eq!(extract_optional_string(&payload, "missing"), None);
}

#[test]
fn a_text_that_is_no_document_is_the_empty_object() {
    for text in ["", "not json", "{\"a\": ", "[1, 2"] {
        let payload = parse_payload(text);
        assert!(payload.is_object());
        assert_eq!(payload.as_object().unwrap().len(), 0);
        assert_eq!(extract_optional_u64(&payload, "a"), None);
    }
    let list = parse_payload("[1, 2]");
    assert!(list.is_array());
    assert_eq!(extract_optional_u64(&list, "a"), None);
}

#[test]
fn library_names_are_an_array_of_strings_or_unset() {
    assert!(matches!(extract_library_names(&parse_payload("{}")), Ok(None)));
    assert!(matches!(extract_library_names(&parse_payload("{\"library_names\": null}")), Ok(None)));
    let names = extract_library_names(&parse_payload("{\"library_names\": [\"b\", \" a \", \"b\"]}"));
    assert_eq!(names.unwrap(), Some(vec!["b".to_string(), " a ".to_string(), "b".to_string()]));
    let empty = extract_library_names(&parse_payload("{\"library_names\": []}"));
    assert_eq!(empty.unwrap(), Some(Vec::<String>::new()));
    assert!(matches!(
        extract_library_names(&parse_payload("{\"library_names\": \"photos\"}")),
        Err(ScanError::LibraryNamesNotArray)
    ));
    assert!(matches!(
        extract_library_names(&parse_payload("{\"library_names\": {\"a\": 1}}")),
        Err(ScanError::LibraryNamesNotArray)
    ));
    assert!(matches!(
        extract_library_names(&parse_payload("{\"library_names\": [\"a\", 3]}")),
        Err(ScanError::LibraryNameNotString)
    ));
}
