use native_ocel::bridge::{
    free_native, import_failure, import_format, load_native, query_arrow_ipc_native, read_utf8,
    spec_json_native, table_rows_json_native, told_nanos, ImportFormat,
};
use native_ocel::metadata::native_ocel;
use native_ocel::ocel::Ocel;
use native_ocel::query::QueryRequest;
use native_ocel::registry::{poisoned, with_native, Registry};

fn empty_log() -> Ocel {
    Ocel {
        event_types: Vec::new(),
        object_types: Vec::new(),
        events: Vec::new(),
        objects: Vec::new(),
    }
}

fn text(value: &str) -> String {
    value.to_string()
}

#[test]
fn registered_logs_are_found_under_their_handles() {
    let mut registry = Registry::new();
    let first = registry.register(native_ocel(empty_log(), 1));
    let second = registry.register(native_ocel(empty_log(), 2));
    assert_eq!((first, second), (1, 2));
    assert_eq!(with_native(Some(&registry), first).unwrap().load_nanos, 1);
    assert_eq!(with_native(Some(&registry), second).unwrap().load_nanos, 2);
    registry.free(first);
    assert_eq!(
        with_native(Some(&registry), first).unwrap_err(),
        "Native OCEL handle 1 is not available."
    );
    assert_eq!(with_native(Some(&registry), second).unwrap().load_nanos, 2);
    let third = registry.register(native_ocel(empty_log(), 3));
    assert_eq!(third, 3);
}

#[test]
fn registered_logs_stay_known_until_they_are_freed() {
    let mut registry = Registry::new();
    let kept = registry.register(native_ocel(empty_log(), 10));
    let other = registry.register(native_ocel(empty_log(), 20));
    registry.free(other);
    assert_eq!(with_native(Some(&registry), kept).unwrap().load_nanos, 10);
    registry.free(kept);
    assert!(with_native(Some(&registry), kept).is_err());
}

#[test]
fn handles_are_positive() {
    let mut registry = Registry::new();
    registry.register(native_ocel(empty_log(), 1));
    registry.free(0);
    registry.free(-1);
    registry.free(77);
    assert!(with_native(Some(&registry), 1).is_ok());
    assert_eq!(with_native(Some(&registry), 0).unwrap_err(), "Invalid native OCEL handle.");
    assert_eq!(with_native(Some(&registry), -5).unwrap_err(), "Invalid native OCEL handle.");
}

#[test]
fn a_poisoned_registry_answers_nothing() {
    assert_eq!(poisoned(), "Native OCEL registry is poisoned.");
    assert_eq!(with_native(None, 1).unwrap_err(), poisoned());
    assert_eq!(with_native(None, 0).unwrap_err(), "Invalid native OCEL handle.");
}

#[test]
fn format_names_are_known_in_any_case() {
    assert_eq!(import_format("json"), Ok(ImportFormat::Json));
    assert_eq!(import_format("JSONOCEL"), Ok(ImportFormat::Json));
    assert_eq!(import_format("Xml"), Ok(ImportFormat::Xml));
    assert_eq!(import_format("xmlocel"), Ok(ImportFormat::Xml));
    for name in ["sqlite", "SQLite3", "db", "DB3"] {
        assert_eq!(import_format(name), Ok(ImportFormat::Sqlite));
    }
    assert_eq!(
        import_format("CSV"),
        Err(text("Unsupported OCEL format for Rust native reader: CSV"))
    );
    assert_eq!(
        import_format(" json"),
        Err(text("Unsupported OCEL format for Rust native reader:  json"))
    );
}

#[test]
fn import_failures_name_their_format() {
    assert_eq!(import_failure(ImportFormat::Json, "x"), "Rust OCEL JSON import failed: x");
    assert_eq!(import_failure(ImportFormat::Xml, "x"), "Rust OCEL XML import panicked.");
    assert_eq!(import_failure(ImportFormat::Sqlite, "x"), "Rust OCEL SQLite import failed: x");
}

#[test]
fn long_times_are_told_as_the_greatest() {
    assert_eq!(told_nanos(0), 0);
    assert_eq!(told_nanos(u64::MAX as u128), u64::MAX);
    assert_eq!(told_nanos(u64::MAX as u128 + 1), u64::MAX);
    assert_eq!(told_nanos(u128::MAX), u64::MAX);
}

#[test]
fn bytes_from_the_host_are_texts() {
    assert_eq!(read_utf8(vec![0xc3, 0xa9]), Ok(text("\u{e9}")));
    assert_eq!(read_utf8(Vec::new()), Ok(String::new()));
    assert_eq!(
        read_utf8(vec![0x61, 0xff]),
        Err(text(
            "Expected UTF-8 data from Java: invalid utf-8 sequence of 1 bytes from index 1"
        ))
    );
}

#[test]
fn loaded_logs_are_served_until_they_are_freed() {
    let mut registry = Registry::new();
    let handle = load_native(&mut registry, empty_log(), 9);
    assert_eq!(handle, 1);
    let spec = String::from_utf8(spec_json_native(Some(&registry), handle).unwrap()).unwrap();
    assert!(spec.contains("\"load_nanos\":9"));
    assert_eq!(
        table_rows_json_native(Some(&registry), handle, b"events".to_vec(), 0, 10),
        Ok(b"{\"rows\":[]}".to_vec())
    );
    let request = || Ok(QueryRequest { operation: None, table: text("objects") });
    assert!(query_arrow_ipc_native(Some(&registry), handle, request()).unwrap().is_ok());
    free_native(&mut registry, handle);
    let gone = text("Native OCEL handle 1 is not available.");
    assert_eq!(spec_json_native(Some(&registry), handle), Err(gone.clone()));
    assert_eq!(
        table_rows_json_native(Some(&registry), handle, b"events".to_vec(), 0, 10),
        Err(gone.clone())
    );
    assert_eq!(query_arrow_ipc_native(Some(&registry), handle, request()), Some(Err(gone)));
}

#[test]
fn page_requests_are_checked_in_order() {
    let mut registry = Registry::new();
    let handle = load_native(&mut registry, empty_log(), 0);
    let negative = text("Offset and limit must be non-negative.");
    assert!(table_rows_json_native(Some(&registry), handle, vec![0xff], -1, -1)
        .unwrap_err()
        .starts_with("Expected UTF-8 data from Java: "));
    assert_eq!(
        table_rows_json_native(Some(&registry), 0, b"events".to_vec(), -1, 0),
        Err(negative.clone())
    );
    assert_eq!(
        table_rows_json_native(Some(&registry), handle, b"events".to_vec(), 0, -1),
        Err(negative)
    );
    assert_eq!(
        table_rows_json_native(Some(&registry), 0, b"events".to_vec(), 0, 0),
        Err(text("Invalid native OCEL handle."))
    );
    assert_eq!(
        table_rows_json_native(Some(&registry), handle, b"none".to_vec(), 0, 0),
        Err(text("Native OCEL table 'none' is not available."))
    );
}

#[test]
fn handles_are_checked_before_queries() {
    let registry = Registry::new();
    assert_eq!(
        query_arrow_ipc_native(Some(&registry), 0, Err(text("bad"))),
        Some(Err(text("Invalid native OCEL handle.")))
    );
    assert_eq!(
        query_arrow_ipc_native(None, 4, Err(text("bad"))),
        Some(Err(text("Native OCEL registry is poisoned.")))
    );
}
