use mail_core::lookup::{LookupKey, LookupValue, MemoryStore};
use mail_core::store::{Backend, BlobStore, FtsStore, LookupStore, LookupTarget, QueryStore, Store};
use std::sync::Arc;

fn backend(id: &str) -> Arc<Backend> {
    Arc::new(Backend { id: id.to_string() })
}

#[test]
fn a_data_store_serves_every_role() {
    let store = Store::RocksDb(backend("db"));
    assert_eq!(store.backend().id, "db");
    let blobs = BlobStore::from(store.clone());
    assert!(matches!(&blobs, BlobStore::Store(Store::RocksDb(b)) if b.id == "db"));
    assert_eq!(blobs.backend().id, "db");
    let fts = FtsStore::from(store.clone());
    assert!(matches!(&fts, FtsStore::Store(Store::RocksDb(b)) if b.id == "db"));
    assert_eq!(fts.backend().id, "db");
    let lookups = LookupStore::from(store);
    assert!(matches!(&lookups, LookupStore::Store(Store::RocksDb(b)) if b.id == "db"));
    assert!(matches!(lookups.target(), LookupTarget::Backend(b) if b.id == "db"));
}

#[test]
fn every_variant_resolves_to_its_backend() {
    assert_eq!(Store::SQLite(backend("a")).backend().id, "a");
    assert_eq!(Store::FoundationDb(backend("b")).backend().id, "b");
    assert_eq!(Store::PostgreSQL(backend("c")).backend().id, "c");
    assert_eq!(Store::MySQL(backend("d")).backend().id, "d");
    assert_eq!(BlobStore::Fs(backend("fs")).backend().id, "fs");
    assert_eq!(BlobStore::S3(backend("s3")).backend().id, "s3");
    assert_eq!(FtsStore::ElasticSearch(backend("es")).backend().id, "es");
    assert!(matches!(
        LookupStore::Redis(backend("redis")).target(),
        LookupTarget::Backend(b) if b.id == "redis"
    ));
}

#[test]
fn handles_are_shared_not_copied() {
    let handle = backend("db");
    let store = Store::SQLite(handle.clone());
    let again = store.clone();
    assert_eq!(Arc::strong_count(&handle), 3);
    assert!(std::ptr::eq(store.backend(), again.backend()));
}

#[test]
fn a_memory_store_serves_lookups() {
    let mut memory = MemoryStore::new();
    memory.key_set(b"k".to_vec(), b"v".to_vec(), 10, 0);
    let lookups = LookupStore::from(memory);
    match lookups.target() {
        LookupTarget::Memory(held) => assert_eq!(
            held.key_get(&LookupKey::Key(b"k".to_vec()), 5),
            LookupValue::Value { value: b"v".to_vec(), expires: 10 }
        ),
        other => panic!("{:?}", other),
    }
}

#[test]
fn a_query_store_runs_its_query_on_the_store_beneath() {
    let beneath = LookupStore::Store(Store::PostgreSQL(backend("pg")));
    let lookups = LookupStore::Query(Arc::new(QueryStore {
        store: beneath,
        query: "SELECT 1 FROM users WHERE name = $1".to_string(),
    }));
    match lookups.target() {
        LookupTarget::Query { store, query } => {
            assert_eq!(query, "SELECT 1 FROM users WHERE name = $1");
            assert!(matches!(store.target(), LookupTarget::Backend(b) if b.id == "pg"));
        }
        other => panic!("{:?}", other),
    }
}
