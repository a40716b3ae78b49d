//! Blobs: content hashes and the retention state of a blob.

use vstd::prelude::*;

verus! {

/// Length of a blob hash.
pub const BLOB_HASH_LEN: usize = 32;

/// The content hash that names a blob wherever it is stored.
#[derive(Clone, Debug, Default, PartialEq, Eq, Hash)]
pub struct BlobHash(pub [u8; BLOB_HASH_LEN]);

/// The retention state of a blob. A blob is reserved until the document
/// that owns it commits; from then on it is linked, for good.
#[derive(Clone, Debug, PartialEq, Eq, Hash)]
pub enum BlobClass {
    /// Uploaded but not yet part of a document; given up at `expires`.
    Reserved { account_id: u32, expires: u64 },
    /// Part of a document.
    Linked { account_id: u32, collection: u8, document_id: u32 },
}

impl Default for BlobClass {
    fn default() -> (class: BlobClass)
        ensures
            class == (BlobClass::Reserved { account_id: 0, expires: 0 }),
    {
        BlobClass::Reserved { account_id: 0, expires: 0 }
    }
}

impl BlobClass {
    /// The account that the blob belongs to.
    pub open spec fn owner(&self) -> u32 {
        match self {
            BlobClass::Reserved { account_id, .. } => *account_id,
            BlobClass::Linked { account_id, .. } => *account_id,
        }
    }

    /// The blob may be reclaimed at `now`: it is reserved and its
    /// reservation has run out.
    pub open spec fn reclaimable(&self, now: u64) -> bool {
        match self {
            BlobClass::Reserved { expires, .. } => *expires <= now,
            BlobClass::Linked { .. } => false,
        }
    }

    /// The state after the owning document committed. A linked blob stays
    /// as it is.
    pub open spec fn linked(&self, collection: u8, document_id: u32) -> BlobClass {
        match self {
            BlobClass::Reserved { account_id, .. } => BlobClass::Linked {
                account_id: *account_id,
                collection,
                document_id,
            },
            BlobClass::Linked { .. } => *self,
        }
    }

    /// The account that the blob belongs to.
    pub fn account_id(&self) -> (id: u32)
        ensures
            id == self.owner(),
    {
        match self {
            BlobClass::Reserved { account_id, .. } => *account_id,
            BlobClass::Linked { account_id, .. } => *account_id,
        }
    }

    /// Whether the blob may be reclaimed at `now`.
    pub fn is_reclaimable(&self, now: u64) -> (yes: bool)
        ensures
            yes == self.reclaimable(now),
    {
        match self {
            BlobClass::Reserved { expires, .. } => *expires <= now,
            BlobClass::Linked { .. } => false,
        }
    }

    /// Links the blob to a document of its account.
    pub fn link(&self, collection: u8, document_id: u32) -> (class: BlobClass)
        ensures
            class == self.linked(collection, document_id),
    {
        match self {
            BlobClass::Reserved { account_id, .. } => BlobClass::Linked {
                account_id: *account_id,
                collection,
                document_id,
            },
            BlobClass::Linked { account_id, collection, document_id } => BlobClass::Linked {
                account_id: *account_id,
                collection: *collection,
                document_id: *document_id,
            },
        }
    }
}

/// A reserved blob may be reclaimed at every instant from its expiry on,
/// and at none before.
pub proof fn law_reserved_expires(account_id: u32, expires: u64, now: u64)
    ensures
        (BlobClass::Reserved { account_id, expires }).reclaimable(now) <==> now >= expires,
{
}

/// Once linked, a blob may never be reclaimed, whatever the clock says, and
/// linking it again leaves it as it is: there is no way back.
pub proof fn law_linked_is_final(class: BlobClass, collection: u8, document_id: u32, now: u64)
    ensures
        class.linked(collection, document_id) is Linked,
        !class.linked(collection, document_id).reclaimable(now),
        class.linked(collection, document_id).owner() == class.owner(),
        forall|c: u8, d: u32|
            class.linked(collection, document_id).linked(c, d) == class.linked(
                collection,
                document_id,
            ),
{
}

} // verus!
