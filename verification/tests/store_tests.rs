use microbin_store::pasta::{Pasta, PastaFile};
use microbin_store::ser::serialize_collection;
use microbin_store::store::{
    commit_rename, database_path, load, remove_record, save, temp_database_path, write_temp,
    Backend, DiskModel, LoadOutcome, PersistAction, ReadRequest, RemoveDecision, ShapeError,
    StoreFacade,
};

fn record(id: u64) -> Pasta {
    Pasta {
        id,
        content: String::from("content"),
        file: None,
        extension: String::new(),
        private: false,
        readonly: false,
        editable: false,
        encrypt_server: false,
        encrypt_client: false,
        encrypted_key: None,
        created: 1,
        expiration: 0,
        last_read: 1,
        read_count: 0,
        burn_after_reads: 0,
        pasta_type: String::from("text"),
        hide_read_count: false,
    }
}

#[test]
fn test_paths() {
    assert_eq!(database_path(), "pasta_data/database.json");
    assert_eq!(temp_database_path(), "pasta_data/database..tmp");
}

#[test]
fn test_load_missing_storage_creates_empty() {
    match load(None) {
        LoadOutcome::Created { pastas, document } => {
            assert!(pastas.is_empty());
            assert_eq!(document, "[]");
        }
        other => panic!("missing storage must be created, got {:?}", other),
    }
}

#[test]
fn test_load_after_save_yields_same_collection() {
    let originals = vec![record(1), record(2)];
    let doc = serialize_collection(&originals);
    match load(Some(&doc)) {
        LoadOutcome::Loaded { pastas, migrated } => {
            assert!(!migrated);
            assert_eq!(pastas, originals);
        }
        other => panic!("saved document must load, got {:?}", other),
    }
}

#[test]
fn test_load_corrupt_is_fatal() {
    assert_eq!(load(Some("[{\"id\":broken")), LoadOutcome::Corrupt);
}

#[test]
fn test_facade_document_backend_writes_whole_collection() {
    let facade = StoreFacade::new(Backend::Document);
    let pastas = vec![record(4)];
    let expected = serialize_collection(&pastas);
    assert_eq!(
        facade.insert(Some(&pastas), None),
        Ok(PersistAction::WriteDocument(expected.clone()))
    );
    assert_eq!(
        facade.update(Some(&pastas), None),
        Ok(PersistAction::WriteDocument(expected.clone()))
    );
    assert_eq!(
        facade.delete(Some(&pastas), Some(4)),
        Ok(PersistAction::WriteDocument(expected))
    );
}

#[test]
fn test_facade_document_backend_fails_loudly_without_collection() {
    let facade = StoreFacade::new(Backend::Document);
    let one = record(4);
    assert_eq!(facade.insert(None, Some(&one)), Err(ShapeError::MissingCollection));
    assert_eq!(facade.update(None, Some(&one)), Err(ShapeError::MissingCollection));
    assert_eq!(facade.delete(None, Some(4)), Err(ShapeError::MissingCollection));
}

#[test]
fn test_facade_relational_backend_takes_single_record() {
    let facade = StoreFacade::new(Backend::Relational);
    let one = record(11);
    assert_eq!(
        facade.insert(None, Some(&one)),
        Ok(PersistAction::InsertRecord(one.clone()))
    );
    assert_eq!(
        facade.update(None, Some(&one)),
        Ok(PersistAction::UpdateRecord(one.clone()))
    );
    assert_eq!(facade.delete(None, Some(11)), Ok(PersistAction::DeleteRecord(11)));
    assert_eq!(facade.insert(Some(&vec![]), None), Err(ShapeError::MissingRecord));
    assert_eq!(facade.update(Some(&vec![]), None), Err(ShapeError::MissingRecord));
    assert_eq!(facade.delete(Some(&vec![]), None), Err(ShapeError::MissingId));
}

#[test]
fn test_facade_read_all_names_the_backend() {
    assert_eq!(
        StoreFacade::new(Backend::Document).read_all(),
        ReadRequest::LoadDocument
    );
    assert_eq!(
        StoreFacade::new(Backend::Relational).read_all(),
        ReadRequest::QueryRelational
    );
}

#[test]
fn test_remove_record_removes_first_match_in_order() {
    let mut pastas = vec![record(1), record(2), record(3)];
    match remove_record(&mut pastas, 2) {
        RemoveDecision::Removed { record } => assert_eq!(record.id, 2),
        other => panic!("expected removal, got {:?}", other),
    }
    let ids: Vec<u64> = pastas.iter().map(|p| p.id).collect();
    assert_eq!(ids, vec![1, 3]);
}

#[test]
fn test_remove_record_protected_needs_auth() {
    let mut readonly = record(5);
    readonly.readonly = true;
    let mut encrypted = record(6);
    encrypted.encrypt_server = true;
    let mut pastas = vec![readonly, encrypted];
    assert_eq!(remove_record(&mut pastas, 5), RemoveDecision::NeedsAuth);
    assert_eq!(remove_record(&mut pastas, 6), RemoveDecision::NeedsAuth);
    assert_eq!(pastas.len(), 2);
}

#[test]
fn test_remove_record_not_found() {
    let mut pastas = vec![record(1)];
    assert_eq!(remove_record(&mut pastas, 99), RemoveDecision::NotFound);
    assert_eq!(pastas.len(), 1);
}

#[test]
fn test_save_protocol_is_atomic_under_interruption() {
    let old_collection = vec![record(1)];
    let new_collection = vec![record(1), {
        let mut p = record(2);
        p.file = Some(PastaFile {
            name: String::from("x.bin"),
        });
        p
    }];
    let mut disk = DiskModel {
        canonical: Some(serialize_collection(&old_collection)),
        temp: None,
    };
    // first step only: the process dies before the rename
    write_temp(&mut disk, serialize_collection(&new_collection));
    let observed = disk.canonical.clone().expect("canonical file still there");
    match load(Some(&observed)) {
        LoadOutcome::Loaded { pastas, .. } => assert_eq!(pastas, old_collection),
        other => panic!("interrupted save must leave the old collection, got {:?}", other),
    }
    // the rename commits the new document in one step
    commit_rename(&mut disk);
    let observed = disk.canonical.clone().expect("canonical file present");
    match load(Some(&observed)) {
        LoadOutcome::Loaded { pastas, .. } => assert_eq!(pastas, new_collection),
        other => panic!("committed save must yield the new collection, got {:?}", other),
    }
    assert_eq!(disk.temp, None);
}

#[test]
fn test_save_writes_the_collection() {
    let pastas = vec![record(8)];
    let mut disk = DiskModel {
        canonical: None,
        temp: None,
    };
    save(&mut disk, &pastas);
    assert_eq!(disk.canonical, Some(serialize_collection(&pastas)));
    assert_eq!(disk.temp, None);
}
