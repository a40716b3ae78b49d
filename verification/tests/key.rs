use mail_core::key::{
    BitmapClass, BitmapKey, IndexKey, IndexKeyPrefix, IterateParams, Key, LogKey, ValueClass,
    ValueKey, SUBSPACE_BITMAPS, SUBSPACE_BLOBS, SUBSPACE_COUNTERS, SUBSPACE_INDEXES, SUBSPACE_LOGS,
    SUBSPACE_VALUES, U32_LEN, U64_LEN, WITHOUT_BLOCK_NUM, WITH_SUBSPACE,
};

#[test]
fn subspace_tags_are_the_fixed_letters() {
    assert_eq!(SUBSPACE_BITMAPS, b'b');
    assert_eq!(SUBSPACE_VALUES, b'v');
    assert_eq!(SUBSPACE_LOGS, b'l');
    assert_eq!(SUBSPACE_INDEXES, b'i');
    assert_eq!(SUBSPACE_BLOBS, b't');
    assert_eq!(SUBSPACE_COUNTERS, b'c');
    assert_eq!(WITH_SUBSPACE, 1);
    assert_eq!(WITHOUT_BLOCK_NUM, 2);
    assert_eq!(U32_LEN, 4);
    assert_eq!(U64_LEN, 8);
}

#[test]
fn log_key_bytes() {
    let key = LogKey { account_id: 0x0102_0304, collection: 5, change_id: 0x0607_0809_0a0b_0c0d };
    assert_eq!(key.serialize(0), vec![1, 2, 3, 4, 5, 6, 7, 8, 9, 10, 11, 12, 13]);
    assert_eq!(
        key.serialize(WITH_SUBSPACE),
        vec![b'l', 1, 2, 3, 4, 5, 6, 7, 8, 9, 10, 11, 12, 13]
    );
    assert_eq!(key.subspace(), b'l');
}

#[test]
fn index_key_bytes() {
    let key = IndexKey {
        account_id: 1,
        collection: 2,
        document_id: 0x0a0b_0c0d,
        field: 3,
        key: vec![0xff, 0x00, 0x7f],
    };
    assert_eq!(
        key.serialize(0),
        vec![0, 0, 0, 1, 2, 0x0a, 0x0b, 0x0c, 0x0d, 3, 0xff, 0x00, 0x7f]
    );
    assert_eq!(key.serialize(WITH_SUBSPACE)[0], b'i');
    assert_eq!(key.serialize(WITH_SUBSPACE)[1..], key.serialize(0)[..]);
    let sortable: [u8; 3] = [0xff, 0x00, 0x7f];
    let borrowed =
        IndexKey { account_id: 1, collection: 2, document_id: 0x0a0b_0c0d, field: 3, key: &sortable[..] };
    assert_eq!(borrowed.serialize(0), key.serialize(0));
    assert_eq!(borrowed.subspace(), b'i');
    assert_eq!(key.subspace(), b'i');
}

#[test]
fn index_key_prefix_bytes() {
    let key = IndexKeyPrefix { account_id: u32::MAX, collection: 0, field: 9 };
    assert_eq!(key.serialize(0), vec![255, 255, 255, 255, 0, 9]);
    assert_eq!(key.serialize(WITH_SUBSPACE), vec![b'i', 255, 255, 255, 255, 0, 9]);
    assert_eq!(key.subspace(), b'i');
}

#[test]
fn value_key_bytes() {
    let key = ValueKey { account_id: 1, collection: 2, document_id: 3, class: ValueClass::Property(4) };
    assert_eq!(key.serialize(0), vec![0, 0, 0, 1, 2, 0, 0, 0, 3, 0, 4]);
    let acl = ValueKey { account_id: 1, collection: 2, document_id: 3, class: ValueClass::Acl(0x0102_0304) };
    assert_eq!(acl.serialize(WITH_SUBSPACE), vec![b'v', 0, 0, 0, 1, 2, 0, 0, 0, 3, 1, 1, 2, 3, 4]);
    let class = ValueClass::Acl(0x0102_0304);
    let borrowed = ValueKey { account_id: 1, collection: 2, document_id: 3, class: &class };
    assert_eq!(borrowed.serialize(WITH_SUBSPACE), acl.serialize(WITH_SUBSPACE));
    assert_eq!(key.subspace(), b'v');
    assert_eq!(borrowed.subspace(), b'v');
}

#[test]
fn bitmap_key_bytes_and_flags() {
    let key = BitmapKey {
        account_id: 1,
        collection: 2,
        class: BitmapClass::Tag { field: 7, value: 0x0102_0304 },
        block_num: 0x0a0b_0c0d,
    };
    assert_eq!(
        key.serialize(0),
        vec![0, 0, 0, 1, 2, 1, 7, 1, 2, 3, 4, 0x0a, 0x0b, 0x0c, 0x0d]
    );
    assert_eq!(key.serialize(WITHOUT_BLOCK_NUM), vec![0, 0, 0, 1, 2, 1, 7, 1, 2, 3, 4]);
    assert_eq!(
        key.serialize(WITH_SUBSPACE | WITHOUT_BLOCK_NUM),
        vec![b'b', 0, 0, 0, 1, 2, 1, 7, 1, 2, 3, 4]
    );
    let ids = BitmapKey { account_id: 1, collection: 2, class: BitmapClass::DocumentIds, block_num: 9 };
    assert_eq!(ids.serialize(WITH_SUBSPACE), vec![b'b', 0, 0, 0, 1, 2, 0, 0, 0, 0, 9]);
    let text = BitmapKey {
        account_id: 1,
        collection: 2,
        class: BitmapClass::Text { field: 3, token: 0x0102_0304_0506_0708 },
        block_num: 0,
    };
    assert_eq!(
        text.serialize(WITHOUT_BLOCK_NUM),
        vec![0, 0, 0, 1, 2, 2, 3, 1, 2, 3, 4, 5, 6, 7, 8]
    );
    let class = BitmapClass::DocumentIds;
    let borrowed = BitmapKey { account_id: 1, collection: 2, class: &class, block_num: 9 };
    assert_eq!(borrowed.serialize(WITH_SUBSPACE), ids.serialize(WITH_SUBSPACE));
    assert_eq!(key.subspace(), b'b');
    assert_eq!(borrowed.subspace(), b'b');
}

#[test]
fn serialization_is_deterministic() {
    let key = IndexKey { account_id: 77, collection: 1, document_id: 5, field: 2, key: vec![1, 2, 3] };
    let again = key.clone();
    assert_eq!(key.serialize(WITH_SUBSPACE), key.serialize(WITH_SUBSPACE));
    assert_eq!(key.serialize(WITH_SUBSPACE), again.serialize(WITH_SUBSPACE));
    assert_eq!(key.serialize(0), again.serialize(0));
}

#[test]
fn unknown_flag_bits_change_nothing() {
    let key = LogKey { account_id: 1, collection: 2, change_id: 3 };
    assert_eq!(key.serialize(4), key.serialize(0));
    assert_eq!(key.serialize(WITHOUT_BLOCK_NUM), key.serialize(0));
    assert_eq!(key.serialize(5), key.serialize(WITH_SUBSPACE));
}

fn next(seed: &mut u64) -> u64 {
    *seed = seed.wrapping_mul(6364136223846793005).wrapping_add(1442695040888963407);
    *seed >> 24
}

#[test]
fn log_keys_sort_as_their_fields() {
    let mut seed = 1;
    let mut keys = Vec::new();
    for _ in 0..200 {
        keys.push(LogKey {
            account_id: (next(&mut seed) % 3) as u32 * 0x0100_0001,
            collection: (next(&mut seed) % 3) as u8,
            change_id: next(&mut seed) % 5 * 0x0001_0000_0000_00ff,
        });
    }
    let mut by_fields = keys.clone();
    by_fields.sort_by_key(|k| (k.account_id, k.collection, k.change_id));
    let mut by_bytes = keys.clone();
    by_bytes.sort_by_key(|k| k.serialize(WITH_SUBSPACE));
    assert_eq!(by_fields, by_bytes);
}

#[test]
fn index_keys_sort_as_their_fields() {
    let mut seed = 2;
    let mut keys = Vec::new();
    for _ in 0..300 {
        let len = next(&mut seed) % 3;
        let mut sortable = Vec::new();
        for _ in 0..len {
            sortable.push((next(&mut seed) % 3 * 127) as u8);
        }
        keys.push(IndexKey {
            account_id: (next(&mut seed) % 2) as u32 * 256,
            collection: (next(&mut seed) % 2) as u8,
            document_id: (next(&mut seed) % 3) as u32 * 0x00ff_0001,
            field: (next(&mut seed) % 2 * 255) as u8,
            key: sortable,
        });
    }
    let mut by_fields = keys.clone();
    by_fields.sort_by_key(|k| (k.account_id, k.collection, k.document_id, k.field, k.key.clone()));
    let mut by_bytes = keys.clone();
    by_bytes.sort_by_key(|k| k.serialize(0));
    assert_eq!(by_fields, by_bytes);
}

fn class_rank(class: &ValueClass) -> (u8, u32) {
    match class {
        ValueClass::Property(field) => (0, *field as u32),
        ValueClass::Acl(grantee) => (1, *grantee),
    }
}

#[test]
fn value_keys_sort_as_their_fields() {
    let mut seed = 3;
    let mut keys = Vec::new();
    for _ in 0..300 {
        let class = if next(&mut seed) % 2 == 0 {
            ValueClass::Property((next(&mut seed) % 3 * 100) as u8)
        } else {
            ValueClass::Acl((next(&mut seed) % 3) as u32 * 0x0101_0101)
        };
        keys.push(ValueKey {
            account_id: (next(&mut seed) % 2) as u32,
            collection: (next(&mut seed) % 2) as u8,
            document_id: (next(&mut seed) % 3) as u32 * 65536,
            class,
        });
    }
    let mut by_fields = keys.clone();
    by_fields.sort_by_key(|k| (k.account_id, k.collection, k.document_id, class_rank(&k.class)));
    let mut by_bytes = keys.clone();
    by_bytes.sort_by_key(|k| k.serialize(WITH_SUBSPACE));
    assert_eq!(by_fields, by_bytes);
}

fn bitmap_rank(class: &BitmapClass) -> (u8, u8, u64) {
    match class {
        BitmapClass::DocumentIds => (0, 0, 0),
        BitmapClass::Tag { field, value } => (1, *field, *value as u64),
        BitmapClass::Text { field, token } => (2, *field, *token),
    }
}

#[test]
fn bitmap_keys_sort_as_their_fields() {
    let mut seed = 4;
    let mut keys = Vec::new();
    for _ in 0..400 {
        let class = match next(&mut seed) % 3 {
            0 => BitmapClass::DocumentIds,
            1 => BitmapClass::Tag {
                field: (next(&mut seed) % 2) as u8,
                value: (next(&mut seed) % 3) as u32 * 0x0100_0000,
            },
            _ => BitmapClass::Text {
                field: (next(&mut seed) % 2) as u8,
                token: next(&mut seed) % 3 * 0x0100_0000_0000_0001,
            },
        };
        keys.push(BitmapKey {
            account_id: (next(&mut seed) % 2) as u32,
            collection: (next(&mut seed) % 2) as u8,
            class,
            block_num: (next(&mut seed) % 3) as u32 * 257,
        });
    }
    let mut by_fields = keys.clone();
    by_fields.sort_by_key(|k| (k.account_id, k.collection, bitmap_rank(&k.class), k.block_num));
    let mut by_bytes = keys.clone();
    by_bytes.sort_by_key(|k| k.serialize(WITH_SUBSPACE));
    assert_eq!(by_fields, by_bytes);
}

#[test]
fn keys_that_differ_only_in_block_number_share_a_prefix() {
    let a = BitmapKey { account_id: 1, collection: 2, class: BitmapClass::DocumentIds, block_num: 1 };
    let b = BitmapKey { account_id: 1, collection: 2, class: BitmapClass::DocumentIds, block_num: 2 };
    assert_eq!(a.serialize(WITHOUT_BLOCK_NUM), b.serialize(WITHOUT_BLOCK_NUM));
    assert_ne!(a.serialize(0), b.serialize(0));
    assert!(a.serialize(0).starts_with(&a.serialize(WITHOUT_BLOCK_NUM)));
}

#[test]
fn keys_of_different_subspaces_never_collide() {
    let log = LogKey { account_id: 0, collection: 0, change_id: 0 };
    let prefix = IndexKeyPrefix { account_id: 0, collection: 0, field: 0 };
    let value =
        ValueKey { account_id: 0, collection: 0, document_id: 0, class: ValueClass::Property(0) };
    let bitmap =
        BitmapKey { account_id: 0, collection: 0, class: BitmapClass::DocumentIds, block_num: 0 };
    let tags = [
        log.serialize(WITH_SUBSPACE)[0],
        prefix.serialize(WITH_SUBSPACE)[0],
        value.serialize(WITH_SUBSPACE)[0],
        bitmap.serialize(WITH_SUBSPACE)[0],
    ];
    assert_eq!(tags, [b'l', b'i', b'v', b'b']);
}

#[test]
fn iterate_params_builders() {
    let begin = LogKey { account_id: 1, collection: 0, change_id: 0 };
    let end = LogKey { account_id: 1, collection: 0, change_id: u64::MAX };
    let params = IterateParams::new(begin, end);
    assert_eq!(*params.begin(), begin);
    assert_eq!(*params.end(), end);
    assert!(!params.is_first());
    assert!(params.is_ascending());
    assert!(params.has_values());
    let params = params.descending().only_first().no_values();
    assert!(params.is_first());
    assert!(!params.is_ascending());
    assert!(!params.has_values());
    let params = params.ascending();
    assert!(params.is_ascending());
    assert!(params.is_first());
    assert_eq!(*params.begin(), begin);
    assert_eq!(*params.end(), end);
}
