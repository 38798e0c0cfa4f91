use microbin_store::parse::parse_collection;
use microbin_store::pasta::{Pasta, PastaFile};
use microbin_store::ser::serialize_collection;
use microbin_store::store::{load, LoadOutcome};

fn sample(id: u64) -> Pasta {
    Pasta {
        id,
        content: String::from("hello"),
        file: None,
        extension: String::from("txt"),
        private: false,
        readonly: false,
        editable: true,
        encrypt_server: false,
        encrypt_client: false,
        encrypted_key: None,
        created: 10,
        expiration: 0,
        last_read: 5,
        read_count: 2,
        burn_after_reads: 0,
        pasta_type: String::from("text"),
        hide_read_count: false,
    }
}

#[test]
fn test_exact_document_one_record() {
    let mut p = sample(7);
    p.content = String::from("hi");
    let doc = serialize_collection(&vec![p]);
    assert_eq!(
        doc,
        "[{\"id\":7,\"content\":\"hi\",\"file\":null,\"extension\":\"txt\",\
         \"private\":false,\"readonly\":false,\"editable\":true,\
         \"encrypt_server\":false,\"encrypt_client\":false,\
         \"encrypted_key\":null,\"created\":10,\"expiration\":0,\
         \"last_read\":5,\"read_count\":2,\"burn_after_reads\":0,\
         \"pasta_type\":\"text\",\"hide_read_count\":false}]"
    );
}

#[test]
fn test_exact_document_empty_collection() {
    let doc = serialize_collection(&Vec::new());
    assert_eq!(doc, "[]");
}

#[test]
fn test_round_trip_single() {
    let p = sample(42);
    let doc = serialize_collection(&vec![p.clone()]);
    let (parsed, migrated) = parse_collection(&doc).expect("round trip must parse");
    assert!(!migrated);
    assert_eq!(parsed, vec![p]);
}

#[test]
fn test_round_trip_attachment_escapes_and_extremes() {
    let mut a = sample(u64::MAX);
    a.content = String::from("quote \" backslash \\ slash / unicode \u{e9}\u{1f980} end");
    a.file = Some(PastaFile {
        name: String::from("img \"1\".png"),
    });
    a.encrypted_key = Some(String::from("k\\ey"));
    a.created = i64::MIN;
    a.expiration = i64::MAX;
    a.last_read = -1;
    a.read_count = u64::MAX;
    a.burn_after_reads = 1;
    a.hide_read_count = true;
    let mut b = sample(0);
    b.content = String::new();
    b.private = true;
    b.readonly = true;
    b.encrypt_server = true;
    b.encrypt_client = true;
    let originals = vec![a, b];
    let doc = serialize_collection(&originals);
    let (parsed, migrated) = parse_collection(&doc).expect("round trip must parse");
    assert!(!migrated);
    assert_eq!(parsed, originals);
}

#[test]
fn test_round_trip_empty_collection() {
    let doc = serialize_collection(&Vec::new());
    let (parsed, migrated) = parse_collection(&doc).expect("empty document must parse");
    assert!(!migrated);
    assert!(parsed.is_empty());
}

// A legacy document: the shared fields only, no `hide_read_count`.
fn legacy_document() -> String {
    String::from(
        "[{\"id\":1,\"content\":\"test content\",\"file\":null,\
         \"extension\":\"test\",\"private\":false,\"readonly\":false,\
         \"editable\":false,\"encrypt_server\":false,\"encrypt_client\":false,\
         \"encrypted_key\":null,\"created\":42,\"expiration\":42,\
         \"last_read\":42,\"read_count\":42,\"burn_after_reads\":42,\
         \"pasta_type\":\"text\"}]",
    )
}

#[test]
fn test_migration() {
    let doc = legacy_document();
    let migrated_db = match load(Some(&doc)) {
        LoadOutcome::Loaded { pastas, .. } => pastas,
        other => panic!("legacy document must load, got {:?}", other),
    };
    assert_eq!(migrated_db[0].hide_read_count, false);
}

#[test]
fn test_migration_preserves_other_fields() {
    let doc = legacy_document();
    let (pastas, migrated) = parse_collection(&doc).expect("legacy document must parse");
    assert!(migrated);
    assert_eq!(pastas.len(), 1);
    let p = &pastas[0];
    assert_eq!(p.id, 1);
    assert_eq!(p.content, "test content");
    assert_eq!(p.file, None);
    assert_eq!(p.extension, "test");
    assert!(!p.private && !p.readonly && !p.editable);
    assert!(!p.encrypt_server && !p.encrypt_client);
    assert_eq!(p.encrypted_key, None);
    assert_eq!(p.created, 42);
    assert_eq!(p.expiration, 42);
    assert_eq!(p.last_read, 42);
    assert_eq!(p.read_count, 42);
    assert_eq!(p.burn_after_reads, 42);
    assert_eq!(p.pasta_type, "text");
    assert_eq!(p.hide_read_count, false);
}

#[test]
fn test_mixed_schema_document_reports_migration() {
    let current = serialize_collection(&vec![sample(9)]);
    // splice the legacy record in front of the current one
    let legacy = legacy_document();
    let doc = format!(
        "[{},{}]",
        &legacy[1..legacy.len() - 1],
        &current[1..current.len() - 1]
    );
    let (pastas, migrated) = parse_collection(&doc).expect("mixed document must parse");
    assert!(migrated);
    assert_eq!(pastas.len(), 2);
    assert_eq!(pastas[0].id, 1);
    assert_eq!(pastas[1].id, 9);
}

#[test]
fn test_corrupt_documents_rejected() {
    assert!(parse_collection("").is_none());
    assert!(parse_collection("not a document").is_none());
    assert!(parse_collection("{}").is_none());
    assert!(parse_collection("[").is_none());
    assert!(parse_collection("[]garbage").is_none());
    // truncated mid-record
    let doc = serialize_collection(&vec![sample(3)]);
    assert!(parse_collection(&doc[..doc.len() - 2]).is_none());
    // overflowing id
    assert!(parse_collection("[{\"id\":99999999999999999999,\"content\":\"x\"").is_none());
}

#[test]
fn test_negative_and_extreme_numbers() {
    let mut p = sample(5);
    p.created = -42;
    p.expiration = i64::MIN;
    p.last_read = i64::MAX;
    let doc = serialize_collection(&vec![p.clone()]);
    assert!(doc.contains("\"created\":-42"));
    assert!(doc.contains(&format!("\"expiration\":{}", i64::MIN)));
    let (parsed, _) = parse_collection(&doc).expect("extreme numbers must parse");
    assert_eq!(parsed, vec![p]);
}
