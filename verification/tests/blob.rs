use mail_core::blob::{BlobClass, BlobHash, BLOB_HASH_LEN};

#[test]
fn default_class_is_an_expired_reservation() {
    assert_eq!(BlobClass::default(), BlobClass::Reserved { account_id: 0, expires: 0 });
    assert!(BlobClass::default().is_reclaimable(0));
}

#[test]
fn a_reservation_runs_out_at_its_expiry() {
    let class = BlobClass::Reserved { account_id: 3, expires: 100 };
    assert!(!class.is_reclaimable(0));
    assert!(!class.is_reclaimable(99));
    assert!(class.is_reclaimable(100));
    assert!(class.is_reclaimable(101));
    assert!(class.is_reclaimable(u64::MAX));
    assert_eq!(class.account_id(), 3);
}

#[test]
fn a_linked_blob_is_never_reclaimed() {
    let class = BlobClass::Reserved { account_id: 3, expires: 100 };
    let linked = class.link(7, 9);
    assert_eq!(linked, BlobClass::Linked { account_id: 3, collection: 7, document_id: 9 });
    assert!(!linked.is_reclaimable(0));
    assert!(!linked.is_reclaimable(100));
    assert!(!linked.is_reclaimable(u64::MAX));
    assert_eq!(linked.account_id(), 3);
}

#[test]
fn linking_happens_once() {
    let linked = BlobClass::Reserved { account_id: 3, expires: 100 }.link(7, 9);
    assert_eq!(linked.link(1, 2), linked);
}

#[test]
fn blob_hashes_compare_by_content() {
    assert_eq!(BLOB_HASH_LEN, 32);
    let zero = BlobHash::default();
    assert_eq!(zero, BlobHash([0; 32]));
    let mut bytes = [0u8; 32];
    bytes[31] = 1;
    assert_ne!(zero, BlobHash(bytes));
    assert_eq!(BlobHash(bytes).clone(), BlobHash(bytes));
}
