//! The stores: handles to the backends that serve data, blobs, full-text
//! search and lookups. Which backend a handle stands for is settled when
//! it is made from configuration; from then on every call is forwarded to
//! that backend.

use crate::lookup::MemoryStore;
use std::sync::Arc;
use vstd::prelude::*;
use vstd::std_specs::convert::FromSpecImpl;

verus! {

/// A backend as this library knows it: the name it was configured under.
/// The driver that does its work is run by the caller.
#[derive(Debug, PartialEq, Eq)]
pub struct Backend {
    pub id: String,
}

/// A data store.
#[derive(Clone, Debug)]
pub enum Store {
    SQLite(Arc<Backend>),
    FoundationDb(Arc<Backend>),
    PostgreSQL(Arc<Backend>),
    MySQL(Arc<Backend>),
    RocksDb(Arc<Backend>),
}

/// A store of blobs: a data store, a file system or an object store.
#[derive(Clone, Debug)]
pub enum BlobStore {
    Store(Store),
    Fs(Arc<Backend>),
    S3(Arc<Backend>),
}

/// A store of full-text indexes: a data store or a search engine.
#[derive(Clone, Debug)]
pub enum FtsStore {
    Store(Store),
    ElasticSearch(Arc<Backend>),
}

/// A store of lookups: a data store, a query over another store, a store
/// held in memory or a cache service.
#[derive(Clone, Debug)]
pub enum LookupStore {
    Store(Store),
    Query(Arc<QueryStore>),
    Memory(Arc<MemoryStore>),
    Redis(Arc<Backend>),
}

/// A lookup store that answers by running one query, fixed when the store
/// is made, on the store beneath it.
#[derive(Debug)]
pub struct QueryStore {
    pub store: LookupStore,
    pub query: String,
}

/// What serves the calls made on a lookup store.
#[derive(Debug)]
pub enum LookupTarget<'a> {
    /// The driver of a backend.
    Backend(&'a Backend),
    /// The store held in memory.
    Memory(&'a MemoryStore),
    /// The query `query`, run on `store` with the key as its argument.
    Query { store: &'a LookupStore, query: &'a str },
}

impl Store {
    /// The backend that the store stands for.
    pub open spec fn handle(&self) -> Backend {
        match self {
            Store::SQLite(backend) => **backend,
            Store::FoundationDb(backend) => **backend,
            Store::PostgreSQL(backend) => **backend,
            Store::MySQL(backend) => **backend,
            Store::RocksDb(backend) => **backend,
        }
    }

    /// The backend that calls on this store are forwarded to.
    pub fn backend(&self) -> (backend: &Backend)
        ensures
            *backend == self.handle(),
    {
        match self {
            Store::SQLite(backend) => backend,
            Store::FoundationDb(backend) => backend,
            Store::PostgreSQL(backend) => backend,
            Store::MySQL(backend) => backend,
            Store::RocksDb(backend) => backend,
        }
    }
}

impl BlobStore {
    /// The backend that the store stands for.
    pub open spec fn handle(&self) -> Backend {
        match self {
            BlobStore::Store(store) => store.handle(),
            BlobStore::Fs(backend) => **backend,
            BlobStore::S3(backend) => **backend,
        }
    }

    /// The backend that calls on this store are forwarded to.
    pub fn backend(&self) -> (backend: &Backend)
        ensures
            *backend == self.handle(),
    {
        match self {
            BlobStore::Store(store) => store.backend(),
            BlobStore::Fs(backend) => backend,
            BlobStore::S3(backend) => backend,
        }
    }
}

impl FtsStore {
    /// The backend that the store stands for.
    pub open spec fn handle(&self) -> Backend {
        match self {
            FtsStore::Store(store) => store.handle(),
            FtsStore::ElasticSearch(backend) => **backend,
        }
    }

    /// The backend that calls on this store are forwarded to.
    pub fn backend(&self) -> (backend: &Backend)
        ensures
            *backend == self.handle(),
    {
        match self {
            FtsStore::Store(store) => store.backend(),
            FtsStore::ElasticSearch(backend) => backend,
        }
    }
}

impl LookupStore {
    /// What serves the calls made on this store.
    pub fn target(&self) -> (target: LookupTarget<'_>)
        ensures
            match self {
                LookupStore::Store(store) => target matches LookupTarget::Backend(backend)
                    && *backend == store.handle(),
                LookupStore::Redis(handle) => target matches LookupTarget::Backend(backend)
                    && *backend == **handle,
                LookupStore::Memory(memory) => target matches LookupTarget::Memory(held) && *held
                    == **memory,
                LookupStore::Query(layer) => target matches LookupTarget::Query { store, query }
                    && *store == layer.store && query@ == layer.query@,
            },
    {
        match self {
            LookupStore::Store(store) => LookupTarget::Backend(store.backend()),
            LookupStore::Redis(handle) => LookupTarget::Backend(handle),
            LookupStore::Memory(memory) => LookupTarget::Memory(memory),
            LookupStore::Query(layer) => LookupTarget::Query {
                store: &layer.store,
                query: layer.query.as_str(),
            },
        }
    }
}

impl From<Store> for FtsStore {
    fn from(store: Store) -> (fts: FtsStore) {
        FtsStore::Store(store)
    }
}

impl FromSpecImpl<Store> for FtsStore {
    open spec fn obeys_from_spec() -> bool {
        true
    }

    open spec fn from_spec(store: Store) -> FtsStore {
        FtsStore::Store(store)
    }
}

impl From<Store> for BlobStore {
    fn from(store: Store) -> (blobs: BlobStore) {
        BlobStore::Store(store)
    }
}

impl FromSpecImpl<Store> for BlobStore {
    open spec fn obeys_from_spec() -> bool {
        true
    }

    open spec fn from_spec(store: Store) -> BlobStore {
        BlobStore::Store(store)
    }
}

impl From<Store> for LookupStore {
    fn from(store: Store) -> (lookups: LookupStore) {
        LookupStore::Store(store)
    }
}

impl FromSpecImpl<Store> for LookupStore {
    open spec fn obeys_from_spec() -> bool {
        true
    }

    open spec fn from_spec(store: Store) -> LookupStore {
        LookupStore::Store(store)
    }
}

impl From<MemoryStore> for LookupStore {
    fn from(store: MemoryStore) -> (lookups: LookupStore) {
        LookupStore::Memory(Arc::new(store))
    }
}

impl FromSpecImpl<MemoryStore> for LookupStore {
    open spec fn obeys_from_spec() -> bool {
        true
    }

    open spec fn from_spec(store: MemoryStore) -> LookupStore {
        LookupStore::Memory(Arc::new(store))
    }
}

} // verus!
