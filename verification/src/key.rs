//! The key space: typed keys, each in a subspace of its own, and their
//! serialization to byte strings whose order is the order of the fields.

use crate::bytes::{
    be_bytes, bytes_lt, lemma_be_u32, lemma_be_u64, lemma_lt_append, lemma_lt_byte, write_bytes,
    write_u32, write_u64, write_u8,
};
use vstd::prelude::*;

verus! {

/// Serialization flag: the key starts with the tag of its subspace.
pub const WITH_SUBSPACE: u32 = 1;

/// Serialization flag: a bitmap key ends before its block number.
pub const WITHOUT_BLOCK_NUM: u32 = 2;

/// Tag of the subspace of bitmaps, `b`.
pub const SUBSPACE_BITMAPS: u8 = 98;

/// Tag of the subspace of values, `v`.
pub const SUBSPACE_VALUES: u8 = 118;

/// Tag of the subspace of change logs, `l`.
pub const SUBSPACE_LOGS: u8 = 108;

/// Tag of the subspace of indexes, `i`.
pub const SUBSPACE_INDEXES: u8 = 105;

/// Tag of the subspace of blobs, `t`.
pub const SUBSPACE_BLOBS: u8 = 116;

/// Tag of the subspace of counters, `c`.
pub const SUBSPACE_COUNTERS: u8 = 99;

/// Length of a serialized `u64`.
pub const U64_LEN: usize = 8;

/// Length of a serialized `u32`.
pub const U32_LEN: usize = 4;

/// `flags` has the bit `flag` set.
pub open spec fn has_flag(flags: u32, flag: u32) -> bool {
    flags & flag != 0
}

/// `body` behind the subspace tag, where `flags` asks for the tag.
pub open spec fn tagged(flags: u32, subspace: u8, body: Seq<u8>) -> Seq<u8> {
    if has_flag(flags, WITH_SUBSPACE) {
        seq![subspace] + body
    } else {
        body
    }
}

/// The fields that every key starts with, account first, followed by `rest`.
pub open spec fn scoped(account_id: u32, collection: u8, rest: Seq<u8>) -> Seq<u8> {
    be_bytes(account_id as nat, 4) + (seq![collection] + rest)
}

/// A key of the store: it serializes to a byte string and lives in one
/// subspace.
pub trait Key: Sync + Send {
    /// The byte string that stands for this key under `flags`.
    spec fn key_bytes(&self, flags: u32) -> Seq<u8>;

    /// The tag of the one subspace that every key of this type lives in.
    spec fn subspace_tag() -> u8;

    /// The key as bytes. The same fields and flags always give the same
    /// bytes, and where the flags ask for the subspace tag, the bytes start
    /// with it.
    fn serialize(&self, flags: u32) -> (bytes: Vec<u8>)
        ensures
            bytes@ == self.key_bytes(flags),
            has_flag(flags, WITH_SUBSPACE) ==> bytes@.len() > 0 && bytes@[0] == Self::subspace_tag(),
    ;

    /// The tag of the key's subspace.
    fn subspace(&self) -> (tag: u8)
        ensures
            tag == Self::subspace_tag(),
    ;
}

/// A value that can be read back from its bytes.
pub trait Deserialize: Sized + Sync + Send {
    fn deserialize(bytes: &[u8]) -> crate::error::Result<Self>;
}

/// A value that can be turned into bytes.
pub trait Serialize {
    fn serialize(self) -> Vec<u8>;
}

/// What a bitmap indexes.
#[derive(Debug, Clone, Copy, PartialEq, Eq, Hash)]
pub enum BitmapClass {
    /// The documents of a collection.
    DocumentIds,
    /// The documents whose field carries a tag.
    Tag { field: u8, value: u32 },
    /// The documents whose field holds a text token.
    Text { field: u8, token: u64 },
}

/// What a stored value belongs to.
#[derive(Debug, Clone, Copy, PartialEq, Eq, Hash)]
pub enum ValueClass {
    /// A property of a document.
    Property(u8),
    /// The rights that an account was granted on a document.
    Acl(u32),
}

impl BitmapClass {
    /// The class as bytes: the variant's rank, then its fields.
    pub open spec fn bytes(self) -> Seq<u8> {
        match self {
            BitmapClass::DocumentIds => seq![0u8],
            BitmapClass::Tag { field, value } => seq![1u8] + (seq![field] + be_bytes(
                value as nat,
                4,
            )),
            BitmapClass::Text { field, token } => seq![2u8] + (seq![field] + be_bytes(
                token as nat,
                8,
            )),
        }
    }

    /// The place of the variant among the variants.
    pub open spec fn rank(self) -> u8 {
        match self {
            BitmapClass::DocumentIds => 0,
            BitmapClass::Tag { .. } => 1,
            BitmapClass::Text { .. } => 2,
        }
    }

    /// `self` comes before `other`: an earlier variant first, then the
    /// fields in the order declared.
    pub open spec fn precedes(self, other: BitmapClass) -> bool {
        self.rank() < other.rank() || match (self, other) {
            (
                BitmapClass::Tag { field: f1, value: v1 },
                BitmapClass::Tag { field: f2, value: v2 },
            ) => f1 < f2 || (f1 == f2 && v1 < v2),
            (
                BitmapClass::Text { field: f1, token: t1 },
                BitmapClass::Text { field: f2, token: t2 },
            ) => f1 < f2 || (f1 == f2 && t1 < t2),
            _ => false,
        }
    }

    /// Appends the class to `buf`.
    pub fn write(&self, buf: &mut Vec<u8>)
        ensures
            final(buf)@ == old(buf)@ + self.bytes(),
    {
        match self {
            BitmapClass::DocumentIds => {
                write_u8(buf, 0);
            },
            BitmapClass::Tag { field, value } => {
                write_u8(buf, 1);
                write_u8(buf, *field);
                write_u32(buf, *value);
            },
            BitmapClass::Text { field, token } => {
                write_u8(buf, 2);
                write_u8(buf, *field);
                write_u64(buf, *token);
            },
        }
        assert(buf@ =~= old(buf)@ + self.bytes());
    }
}

impl ValueClass {
    /// The class as bytes: the variant's rank, then its field.
    pub open spec fn bytes(self) -> Seq<u8> {
        match self {
            ValueClass::Property(field) => seq![0u8] + seq![field],
            ValueClass::Acl(grantee) => seq![1u8] + be_bytes(grantee as nat, 4),
        }
    }

    /// The place of the variant among the variants.
    pub open spec fn rank(self) -> u8 {
        match self {
            ValueClass::Property(_) => 0,
            ValueClass::Acl(_) => 1,
        }
    }

    /// `self` comes before `other`: an earlier variant first, then the
    /// field.
    pub open spec fn precedes(self, other: ValueClass) -> bool {
        self.rank() < other.rank() || match (self, other) {
            (ValueClass::Property(f1), ValueClass::Property(f2)) => f1 < f2,
            (ValueClass::Acl(g1), ValueClass::Acl(g2)) => g1 < g2,
            _ => false,
        }
    }

    /// Appends the class to `buf`.
    pub fn write(&self, buf: &mut Vec<u8>)
        ensures
            final(buf)@ == old(buf)@ + self.bytes(),
    {
        match self {
            ValueClass::Property(field) => {
                write_u8(buf, 0);
                write_u8(buf, *field);
            },
            ValueClass::Acl(grantee) => {
                write_u8(buf, 1);
                write_u32(buf, *grantee);
            },
        }
        assert(buf@ =~= old(buf)@ + self.bytes());
    }
}

/// Key of one block of a bitmap.
#[derive(Debug, Clone, Copy, PartialEq, Eq, Hash)]
pub struct BitmapKey<T> {
    pub account_id: u32,
    pub collection: u8,
    pub class: T,
    pub block_num: u32,
}

/// Key of an index entry: a field's sortable value in one document.
#[derive(Debug, Clone, PartialEq, Eq, Hash)]
pub struct IndexKey<T> {
    pub account_id: u32,
    pub collection: u8,
    pub document_id: u32,
    pub field: u8,
    pub key: T,
}

/// Key of the index entries of one field of a collection.
#[derive(Debug, Clone, Copy, PartialEq, Eq, Hash)]
pub struct IndexKeyPrefix {
    pub account_id: u32,
    pub collection: u8,
    pub field: u8,
}

/// Key of a value stored for a document.
#[derive(Debug, Clone, Copy, PartialEq, Eq, Hash)]
pub struct ValueKey<T> {
    pub account_id: u32,
    pub collection: u8,
    pub document_id: u32,
    pub class: T,
}

/// Key of a change log entry.
#[derive(Debug, Clone, Copy, PartialEq, Eq, Hash)]
pub struct LogKey {
    pub account_id: u32,
    pub collection: u8,
    pub change_id: u64,
}

/// What a scan of the keys between two keys is to yield.
pub struct IterateParams<T: Key> {
    begin: T,
    end: T,
    first: bool,
    ascending: bool,
    values: bool,
}

impl<T: Key> IterateParams<T> {
    /// The key that the scan starts at.
    pub closed spec fn from_key(&self) -> T {
        self.begin
    }

    /// The key that the scan ends at.
    pub closed spec fn to_key(&self) -> T {
        self.end
    }

    /// The scan stops at the first match.
    pub closed spec fn first_only(&self) -> bool {
        self.first
    }

    /// The scan runs from the smaller to the larger keys.
    pub closed spec fn rising(&self) -> bool {
        self.ascending
    }

    /// The scan yields the values as well as the keys.
    pub closed spec fn with_values(&self) -> bool {
        self.values
    }

    /// A scan of every key from `begin` to `end` in rising order, values
    /// included.
    pub fn new(begin: T, end: T) -> (params: Self)
        ensures
            params.from_key() == begin,
            params.to_key() == end,
            !params.first_only(),
            params.rising(),
            params.with_values(),
    {
        IterateParams { begin, end, first: false, ascending: true, values: true }
    }

    /// The same scan in rising order.
    pub fn ascending(self) -> (params: Self)
        ensures
            params.rising(),
            params.from_key() == self.from_key(),
            params.to_key() == self.to_key(),
            params.first_only() == self.first_only(),
            params.with_values() == self.with_values(),
    {
        IterateParams { ascending: true, ..self }
    }

    /// The same scan in falling order.
    pub fn descending(self) -> (params: Self)
        ensures
            !params.rising(),
            params.from_key() == self.from_key(),
            params.to_key() == self.to_key(),
            params.first_only() == self.first_only(),
            params.with_values() == self.with_values(),
    {
        IterateParams { ascending: false, ..self }
    }

    /// The same scan, stopped at the first match.
    pub fn only_first(self) -> (params: Self)
        ensures
            params.first_only(),
            params.from_key() == self.from_key(),
            params.to_key() == self.to_key(),
            params.rising() == self.rising(),
            params.with_values() == self.with_values(),
    {
        IterateParams { first: true, ..self }
    }

    /// The same scan without the values.
    pub fn no_values(self) -> (params: Self)
        ensures
            !params.with_values(),
            params.from_key() == self.from_key(),
            params.to_key() == self.to_key(),
            params.first_only() == self.first_only(),
            params.rising() == self.rising(),
    {
        IterateParams { values: false, ..self }
    }

    /// The key that the scan starts at.
    pub fn begin(&self) -> (key: &T)
        ensures
            *key == self.from_key(),
    {
        &self.begin
    }

    /// The key that the scan ends at.
    pub fn end(&self) -> (key: &T)
        ensures
            *key == self.to_key(),
    {
        &self.end
    }

    /// Whether the scan stops at the first match.
    pub fn is_first(&self) -> (yes: bool)
        ensures
            yes == self.first_only(),
    {
        self.first
    }

    /// Whether the scan runs in rising order.
    pub fn is_ascending(&self) -> (yes: bool)
        ensures
            yes == self.rising(),
    {
        self.ascending
    }

    /// Whether the scan yields values.
    pub fn has_values(&self) -> (yes: bool)
        ensures
            yes == self.with_values(),
    {
        self.values
    }
}

impl BitmapKey<BitmapClass> {
    /// The key as bytes: account, collection, class and, unless `flags`
    /// leaves it out, the block number.
    pub open spec fn bytes(self, flags: u32) -> Seq<u8> {
        tagged(
            flags,
            SUBSPACE_BITMAPS,
            scoped(
                self.account_id,
                self.collection,
                self.class.bytes() + if has_flag(flags, WITHOUT_BLOCK_NUM) {
                    Seq::empty()
                } else {
                    be_bytes(self.block_num as nat, 4)
                },
            ),
        )
    }

    /// `self` comes before `other` as a tuple of the fields that `flags`
    /// keeps, in the order declared.
    pub open spec fn precedes(self, other: Self, flags: u32) -> bool {
        self.account_id < other.account_id || (self.account_id == other.account_id && (
        self.collection < other.collection || (self.collection == other.collection && (
        self.class.precedes(other.class) || (self.class == other.class && !has_flag(
            flags,
            WITHOUT_BLOCK_NUM,
        ) && self.block_num < other.block_num)))))
    }

    /// `self` and `other` agree on every field that `flags` keeps.
    pub open spec fn agrees(self, other: Self, flags: u32) -> bool {
        &&& self.account_id == other.account_id
        &&& self.collection == other.collection
        &&& self.class == other.class
        &&& has_flag(flags, WITHOUT_BLOCK_NUM) || self.block_num == other.block_num
    }
}

impl IndexKey<Seq<u8>> {
    /// The key as bytes: account, collection, document, field and the
    /// sortable value.
    pub open spec fn bytes(self, flags: u32) -> Seq<u8> {
        tagged(
            flags,
            SUBSPACE_INDEXES,
            scoped(
                self.account_id,
                self.collection,
                be_bytes(self.document_id as nat, 4) + (seq![self.field] + self.key),
            ),
        )
    }

    /// `self` comes before `other` as a tuple of the fields in the order
    /// declared, the sortable values compared byte by byte.
    pub open spec fn precedes(self, other: Self) -> bool {
        self.account_id < other.account_id || (self.account_id == other.account_id && (
        self.collection < other.collection || (self.collection == other.collection && (
        self.document_id < other.document_id || (self.document_id == other.document_id && (
        self.field < other.field || (self.field == other.field && bytes_lt(
            self.key,
            other.key,
        ))))))))
    }
}

impl IndexKeyPrefix {
    /// The key as bytes: account, collection and field.
    pub open spec fn bytes(self, flags: u32) -> Seq<u8> {
        tagged(
            flags,
            SUBSPACE_INDEXES,
            scoped(self.account_id, self.collection, seq![self.field]),
        )
    }

    /// `self` comes before `other` as a tuple of the fields in the order
    /// declared.
    pub open spec fn precedes(self, other: Self) -> bool {
        self.account_id < other.account_id || (self.account_id == other.account_id && (
        self.collection < other.collection || (self.collection == other.collection && self.field
            < other.field)))
    }
}

impl ValueKey<ValueClass> {
    /// The key as bytes: account, collection, document and class.
    pub open spec fn bytes(self, flags: u32) -> Seq<u8> {
        tagged(
            flags,
            SUBSPACE_VALUES,
            scoped(
                self.account_id,
                self.collection,
                be_bytes(self.document_id as nat, 4) + self.class.bytes(),
            ),
        )
    }

    /// `self` comes before `other` as a tuple of the fields in the order
    /// declared.
    pub open spec fn precedes(self, other: Self) -> bool {
        self.account_id < other.account_id || (self.account_id == other.account_id && (
        self.collection < other.collection || (self.collection == other.collection && (
        self.document_id < other.document_id || (self.document_id == other.document_id
            && self.class.precedes(other.class))))))
    }
}

impl LogKey {
    /// The key as bytes: account, collection and change.
    pub open spec fn bytes(self, flags: u32) -> Seq<u8> {
        tagged(
            flags,
            SUBSPACE_LOGS,
            scoped(self.account_id, self.collection, be_bytes(self.change_id as nat, 8)),
        )
    }

    /// `self` comes before `other` as a tuple of the fields in the order
    /// declared.
    pub open spec fn precedes(self, other: Self) -> bool {
        self.account_id < other.account_id || (self.account_id == other.account_id && (
        self.collection < other.collection || (self.collection == other.collection
            && self.change_id < other.change_id)))
    }
}

/// Starts a key: the subspace tag where `flags` asks for it, then account
/// and collection.
fn start_key(flags: u32, subspace: u8, account_id: u32, collection: u8) -> (buf: Vec<u8>)
    ensures
        forall|rest: Seq<u8>|
            #[trigger] (buf@ + rest) == tagged(flags, subspace, scoped(account_id, collection, rest)),
{
    let mut buf: Vec<u8> = Vec::new();
    if (flags & WITH_SUBSPACE) != 0 {
        write_u8(&mut buf, subspace);
    }
    write_u32(&mut buf, account_id);
    write_u8(&mut buf, collection);
    assert forall|rest: Seq<u8>|
        #[trigger] (buf@ + rest) == tagged(flags, subspace, scoped(account_id, collection, rest)) by {
        assert(buf@ + rest =~= tagged(flags, subspace, scoped(account_id, collection, rest)));
    }
    buf
}

fn bitmap_key_bytes(
    account_id: u32,
    collection: u8,
    class: &BitmapClass,
    block_num: u32,
    flags: u32,
) -> (bytes: Vec<u8>)
    ensures
        bytes@ == (BitmapKey { account_id, collection, class: *class, block_num }).bytes(flags),
{
    let mut buf = start_key(flags, SUBSPACE_BITMAPS, account_id, collection);
    let ghost head = buf@;
    class.write(&mut buf);
    if (flags & WITHOUT_BLOCK_NUM) == 0 {
        write_u32(&mut buf, block_num);
        assert(buf@ =~= head + (class.bytes() + be_bytes(block_num as nat, 4)));
    } else {
        assert(buf@ =~= head + (class.bytes() + Seq::<u8>::empty()));
    }
    buf
}

fn index_key_bytes(
    account_id: u32,
    collection: u8,
    document_id: u32,
    field: u8,
    key: &[u8],
    flags: u32,
) -> (bytes: Vec<u8>)
    ensures
        bytes@ == (IndexKey { account_id, collection, document_id, field, key: key@ }).bytes(flags),
{
    let mut buf = start_key(flags, SUBSPACE_INDEXES, account_id, collection);
    let ghost head = buf@;
    write_u32(&mut buf, document_id);
    write_u8(&mut buf, field);
    write_bytes(&mut buf, key);
    assert(buf@ =~= head + (be_bytes(document_id as nat, 4) + (seq![field] + key@)));
    buf
}

fn value_key_bytes(
    account_id: u32,
    collection: u8,
    document_id: u32,
    class: &ValueClass,
    flags: u32,
) -> (bytes: Vec<u8>)
    ensures
        bytes@ == (ValueKey { account_id, collection, document_id, class: *class }).bytes(flags),
{
    let mut buf = start_key(flags, SUBSPACE_VALUES, account_id, collection);
    let ghost head = buf@;
    write_u32(&mut buf, document_id);
    class.write(&mut buf);
    assert(buf@ =~= head + (be_bytes(document_id as nat, 4) + class.bytes()));
    buf
}

impl Key for BitmapKey<BitmapClass> {
    open spec fn key_bytes(&self, flags: u32) -> Seq<u8> {
        self.bytes(flags)
    }

    open spec fn subspace_tag() -> u8 {
        SUBSPACE_BITMAPS
    }

    fn serialize(&self, flags: u32) -> (bytes: Vec<u8>) {
        bitmap_key_bytes(self.account_id, self.collection, &self.class, self.block_num, flags)
    }

    fn subspace(&self) -> (tag: u8) {
        SUBSPACE_BITMAPS
    }
}

impl<'a> Key for BitmapKey<&'a BitmapClass> {
    open spec fn key_bytes(&self, flags: u32) -> Seq<u8> {
        (BitmapKey {
            account_id: self.account_id,
            collection: self.collection,
            class: *self.class,
            block_num: self.block_num,
        }).bytes(flags)
    }

    open spec fn subspace_tag() -> u8 {
        SUBSPACE_BITMAPS
    }

    fn serialize(&self, flags: u32) -> (bytes: Vec<u8>) {
        bitmap_key_bytes(self.account_id, self.collection, self.class, self.block_num, flags)
    }

    fn subspace(&self) -> (tag: u8) {
        SUBSPACE_BITMAPS
    }
}

impl Key for IndexKey<Vec<u8>> {
    open spec fn key_bytes(&self, flags: u32) -> Seq<u8> {
        (IndexKey {
            account_id: self.account_id,
            collection: self.collection,
            document_id: self.document_id,
            field: self.field,
            key: self.key@,
        }).bytes(flags)
    }

    open spec fn subspace_tag() -> u8 {
        SUBSPACE_INDEXES
    }

    fn serialize(&self, flags: u32) -> (bytes: Vec<u8>) {
        index_key_bytes(
            self.account_id,
            self.collection,
            self.document_id,
            self.field,
            self.key.as_slice(),
            flags,
        )
    }

    fn subspace(&self) -> (tag: u8) {
        SUBSPACE_INDEXES
    }
}

impl<'a> Key for IndexKey<&'a [u8]> {
    open spec fn key_bytes(&self, flags: u32) -> Seq<u8> {
        (IndexKey {
            account_id: self.account_id,
            collection: self.collection,
            document_id: self.document_id,
            field: self.field,
            key: self.key@,
        }).bytes(flags)
    }

    open spec fn subspace_tag() -> u8 {
        SUBSPACE_INDEXES
    }

    fn serialize(&self, flags: u32) -> (bytes: Vec<u8>) {
        index_key_bytes(
            self.account_id,
            self.collection,
            self.document_id,
            self.field,
            self.key,
            flags,
        )
    }

    fn subspace(&self) -> (tag: u8) {
        SUBSPACE_INDEXES
    }
}

impl Key for IndexKeyPrefix {
    open spec fn key_bytes(&self, flags: u32) -> Seq<u8> {
        self.bytes(flags)
    }

    open spec fn subspace_tag() -> u8 {
        SUBSPACE_INDEXES
    }

    fn serialize(&self, flags: u32) -> (bytes: Vec<u8>) {
        let mut buf = start_key(flags, SUBSPACE_INDEXES, self.account_id, self.collection);
        let ghost head = buf@;
        write_u8(&mut buf, self.field);
        assert(buf@ =~= head + seq![self.field]);
        buf
    }

    fn subspace(&self) -> (tag: u8) {
        SUBSPACE_INDEXES
    }
}

impl Key for ValueKey<ValueClass> {
    open spec fn key_bytes(&self, flags: u32) -> Seq<u8> {
        self.bytes(flags)
    }

    open spec fn subspace_tag() -> u8 {
        SUBSPACE_VALUES
    }

    fn serialize(&self, flags: u32) -> (bytes: Vec<u8>) {
        value_key_bytes(self.account_id, self.collection, self.document_id, &self.class, flags)
    }

    fn subspace(&self) -> (tag: u8) {
        SUBSPACE_VALUES
    }
}

impl<'a> Key for ValueKey<&'a ValueClass> {
    open spec fn key_bytes(&self, flags: u32) -> Seq<u8> {
        (ValueKey {
            account_id: self.account_id,
            collection: self.collection,
            document_id: self.document_id,
            class: *self.class,
        }).bytes(flags)
    }

    open spec fn subspace_tag() -> u8 {
        SUBSPACE_VALUES
    }

    fn serialize(&self, flags: u32) -> (bytes: Vec<u8>) {
        value_key_bytes(self.account_id, self.collection, self.document_id, self.class, flags)
    }

    fn subspace(&self) -> (tag: u8) {
        SUBSPACE_VALUES
    }
}

impl Key for LogKey {
    open spec fn key_bytes(&self, flags: u32) -> Seq<u8> {
        self.bytes(flags)
    }

    open spec fn subspace_tag() -> u8 {
        SUBSPACE_LOGS
    }

    fn serialize(&self, flags: u32) -> (bytes: Vec<u8>) {
        let mut buf = start_key(flags, SUBSPACE_LOGS, self.account_id, self.collection);
        let ghost head = buf@;
        write_u64(&mut buf, self.change_id);
        assert(buf@ =~= head + be_bytes(self.change_id as nat, 8));
        buf
    }

    fn subspace(&self) -> (tag: u8) {
        SUBSPACE_LOGS
    }
}

/// The subspace tag, being the same on both sides, decides nothing.
proof fn lemma_tagged(flags: u32, subspace: u8, x: Seq<u8>, y: Seq<u8>)
    ensures
        bytes_lt(tagged(flags, subspace, x), tagged(flags, subspace, y)) == bytes_lt(x, y),
        (tagged(flags, subspace, x) == tagged(flags, subspace, y)) == (x == y),
{
    if has_flag(flags, WITH_SUBSPACE) {
        lemma_lt_append(seq![subspace], x, seq![subspace], y);
    }
}

/// Keys are ordered by account, then collection, then what follows.
proof fn lemma_scoped(a1: u32, c1: u8, r1: Seq<u8>, a2: u32, c2: u8, r2: Seq<u8>)
    ensures
        bytes_lt(scoped(a1, c1, r1), scoped(a2, c2, r2)) == (a1 < a2 || (a1 == a2 && (c1 < c2 || (c1
            == c2 && bytes_lt(r1, r2))))),
        (scoped(a1, c1, r1) == scoped(a2, c2, r2)) == (a1 == a2 && c1 == c2 && r1 == r2),
{
    lemma_be_u32(a1, a2);
    lemma_lt_append(
        be_bytes(a1 as nat, 4),
        seq![c1] + r1,
        be_bytes(a2 as nat, 4),
        seq![c2] + r2,
    );
    lemma_lt_append(seq![c1], r1, seq![c2], r2);
    lemma_lt_byte(c1, c2);
}

/// A `u32` field followed by `r` is ordered by the field first.
proof fn lemma_u32_then(x1: u32, r1: Seq<u8>, x2: u32, r2: Seq<u8>)
    ensures
        bytes_lt(be_bytes(x1 as nat, 4) + r1, be_bytes(x2 as nat, 4) + r2) == (x1 < x2 || (x1 == x2
            && bytes_lt(r1, r2))),
        (be_bytes(x1 as nat, 4) + r1 == be_bytes(x2 as nat, 4) + r2) == (x1 == x2 && r1 == r2),
{
    lemma_be_u32(x1, x2);
    lemma_lt_append(be_bytes(x1 as nat, 4), r1, be_bytes(x2 as nat, 4), r2);
}

/// A one-byte field followed by `r` is ordered by the field first.
proof fn lemma_u8_then(x1: u8, r1: Seq<u8>, x2: u8, r2: Seq<u8>)
    ensures
        bytes_lt(seq![x1] + r1, seq![x2] + r2) == (x1 < x2 || (x1 == x2 && bytes_lt(r1, r2))),
        (seq![x1] + r1 == seq![x2] + r2) == (x1 == x2 && r1 == r2),
{
    lemma_lt_byte(x1, x2);
    lemma_lt_append(seq![x1], r1, seq![x2], r2);
}

/// A bitmap class followed by `r` is ordered by the class first.
proof fn lemma_bitmap_class_then(c1: BitmapClass, r1: Seq<u8>, c2: BitmapClass, r2: Seq<u8>)
    ensures
        bytes_lt(c1.bytes() + r1, c2.bytes() + r2) == (c1.precedes(c2) || (c1 == c2 && bytes_lt(
            r1,
            r2,
        ))),
        (c1.bytes() + r1 == c2.bytes() + r2) == (c1 == c2 && r1 == r2),
        !(c1.precedes(c2) && c1 == c2),
{
    let pa = bitmap_payload(c1);
    let pb = bitmap_payload(c2);
    assert(c1.bytes() =~= seq![c1.rank()] + pa);
    assert(c2.bytes() =~= seq![c2.rank()] + pb);
    assert(c1.bytes() + r1 =~= seq![c1.rank()] + (pa + r1));
    assert(c2.bytes() + r2 =~= seq![c2.rank()] + (pb + r2));
    lemma_u8_then(c1.rank(), pa + r1, c2.rank(), pb + r2);
    match (c1, c2) {
        (BitmapClass::DocumentIds, BitmapClass::DocumentIds) => {
            assert(pa + r1 =~= r1);
            assert(pb + r2 =~= r2);
        },
        (
            BitmapClass::Tag { field: f1, value: v1 },
            BitmapClass::Tag { field: f2, value: v2 },
        ) => {
            assert(pa + r1 =~= seq![f1] + (be_bytes(v1 as nat, 4) + r1));
            assert(pb + r2 =~= seq![f2] + (be_bytes(v2 as nat, 4) + r2));
            lemma_u8_then(f1, be_bytes(v1 as nat, 4) + r1, f2, be_bytes(v2 as nat, 4) + r2);
            lemma_u32_then(v1, r1, v2, r2);
        },
        (
            BitmapClass::Text { field: f1, token: t1 },
            BitmapClass::Text { field: f2, token: t2 },
        ) => {
            assert(pa + r1 =~= seq![f1] + (be_bytes(t1 as nat, 8) + r1));
            assert(pb + r2 =~= seq![f2] + (be_bytes(t2 as nat, 8) + r2));
            lemma_u8_then(f1, be_bytes(t1 as nat, 8) + r1, f2, be_bytes(t2 as nat, 8) + r2);
            lemma_be_u64(t1, t2);
            lemma_lt_append(be_bytes(t1 as nat, 8), r1, be_bytes(t2 as nat, 8), r2);
        },
        _ => {},
    }
}

/// The fields of a bitmap class as bytes, without the variant's rank.
spec fn bitmap_payload(c: BitmapClass) -> Seq<u8> {
    match c {
        BitmapClass::DocumentIds => Seq::empty(),
        BitmapClass::Tag { field, value } => seq![field] + be_bytes(value as nat, 4),
        BitmapClass::Text { field, token } => seq![field] + be_bytes(token as nat, 8),
    }
}

/// Value classes are ordered as their bytes.
proof fn lemma_value_class(c1: ValueClass, c2: ValueClass)
    ensures
        bytes_lt(c1.bytes(), c2.bytes()) == c1.precedes(c2),
        (c1.bytes() == c2.bytes()) == (c1 == c2),
{
    match (c1, c2) {
        (ValueClass::Property(f1), ValueClass::Property(f2)) => {
            lemma_u8_then(0, seq![f1], 0, seq![f2]);
            lemma_lt_byte(f1, f2);
        },
        (ValueClass::Acl(g1), ValueClass::Acl(g2)) => {
            lemma_u8_then(1, be_bytes(g1 as nat, 4), 1, be_bytes(g2 as nat, 4));
            lemma_be_u32(g1, g2);
        },
        (ValueClass::Property(f1), ValueClass::Acl(g2)) => {
            lemma_u8_then(0, seq![f1], 1, be_bytes(g2 as nat, 4));
        },
        (ValueClass::Acl(g1), ValueClass::Property(f2)) => {
            lemma_u8_then(1, be_bytes(g1 as nat, 4), 0, seq![f2]);
        },
    }
}

/// Serialized bitmap keys sort as the tuples of the fields that the flags
/// keep, and two keys serialize alike only when they agree on those fields.
pub proof fn law_bitmap_key_order(
    a: BitmapKey<BitmapClass>,
    b: BitmapKey<BitmapClass>,
    flags: u32,
)
    ensures
        bytes_lt(a.bytes(flags), b.bytes(flags)) == a.precedes(b, flags),
        (a.bytes(flags) == b.bytes(flags)) == a.agrees(b, flags),
{
    let ra = if has_flag(flags, WITHOUT_BLOCK_NUM) {
        Seq::empty()
    } else {
        be_bytes(a.block_num as nat, 4)
    };
    let rb = if has_flag(flags, WITHOUT_BLOCK_NUM) {
        Seq::empty()
    } else {
        be_bytes(b.block_num as nat, 4)
    };
    lemma_tagged(
        flags,
        SUBSPACE_BITMAPS,
        scoped(a.account_id, a.collection, a.class.bytes() + ra),
        scoped(b.account_id, b.collection, b.class.bytes() + rb),
    );
    lemma_scoped(
        a.account_id,
        a.collection,
        a.class.bytes() + ra,
        b.account_id,
        b.collection,
        b.class.bytes() + rb,
    );
    lemma_bitmap_class_then(a.class, ra, b.class, rb);
    lemma_be_u32(a.block_num, b.block_num);
}

/// Serialized index keys sort as the tuples of their fields, and two keys
/// serialize alike only when they are the same.
pub proof fn law_index_key_order(a: IndexKey<Seq<u8>>, b: IndexKey<Seq<u8>>, flags: u32)
    ensures
        bytes_lt(a.bytes(flags), b.bytes(flags)) == a.precedes(b),
        (a.bytes(flags) == b.bytes(flags)) == (a == b),
{
    let ra = be_bytes(a.document_id as nat, 4) + (seq![a.field] + a.key);
    let rb = be_bytes(b.document_id as nat, 4) + (seq![b.field] + b.key);
    lemma_tagged(
        flags,
        SUBSPACE_INDEXES,
        scoped(a.account_id, a.collection, ra),
        scoped(b.account_id, b.collection, rb),
    );
    lemma_scoped(a.account_id, a.collection, ra, b.account_id, b.collection, rb);
    lemma_u32_then(a.document_id, seq![a.field] + a.key, b.document_id, seq![b.field] + b.key);
    lemma_u8_then(a.field, a.key, b.field, b.key);
}

/// Serialized index key prefixes sort as the tuples of their fields, and
/// two of them serialize alike only when they are the same.
pub proof fn law_index_key_prefix_order(a: IndexKeyPrefix, b: IndexKeyPrefix, flags: u32)
    ensures
        bytes_lt(a.bytes(flags), b.bytes(flags)) == a.precedes(b),
        (a.bytes(flags) == b.bytes(flags)) == (a == b),
{
    lemma_tagged(
        flags,
        SUBSPACE_INDEXES,
        scoped(a.account_id, a.collection, seq![a.field]),
        scoped(b.account_id, b.collection, seq![b.field]),
    );
    lemma_scoped(
        a.account_id,
        a.collection,
        seq![a.field],
        b.account_id,
        b.collection,
        seq![b.field],
    );
    lemma_lt_byte(a.field, b.field);
}

/// Serialized value keys sort as the tuples of their fields, and two keys
/// serialize alike only when they are the same.
pub proof fn law_value_key_order(a: ValueKey<ValueClass>, b: ValueKey<ValueClass>, flags: u32)
    ensures
        bytes_lt(a.bytes(flags), b.bytes(flags)) == a.precedes(b),
        (a.bytes(flags) == b.bytes(flags)) == (a == b),
{
    let ra = be_bytes(a.document_id as nat, 4) + a.class.bytes();
    let rb = be_bytes(b.document_id as nat, 4) + b.class.bytes();
    lemma_tagged(
        flags,
        SUBSPACE_VALUES,
        scoped(a.account_id, a.collection, ra),
        scoped(b.account_id, b.collection, rb),
    );
    lemma_scoped(a.account_id, a.collection, ra, b.account_id, b.collection, rb);
    lemma_u32_then(a.document_id, a.class.bytes(), b.document_id, b.class.bytes());
    lemma_value_class(a.class, b.class);
}

/// Serialized log keys sort as the tuples of their fields, and two keys
/// serialize alike only when they are the same.
pub proof fn law_log_key_order(a: LogKey, b: LogKey, flags: u32)
    ensures
        bytes_lt(a.bytes(flags), b.bytes(flags)) == a.precedes(b),
        (a.bytes(flags) == b.bytes(flags)) == (a == b),
{
    lemma_tagged(
        flags,
        SUBSPACE_LOGS,
        scoped(a.account_id, a.collection, be_bytes(a.change_id as nat, 8)),
        scoped(b.account_id, b.collection, be_bytes(b.change_id as nat, 8)),
    );
    lemma_scoped(
        a.account_id,
        a.collection,
        be_bytes(a.change_id as nat, 8),
        b.account_id,
        b.collection,
        be_bytes(b.change_id as nat, 8),
    );
    lemma_be_u64(a.change_id, b.change_id);
}

/// Keys of one account and collection start with the same bytes, which
/// the rest of their fields follow: a scan of that prefix meets them all.
pub proof fn law_scope_is_prefix(
    flags: u32,
    subspace: u8,
    account_id: u32,
    collection: u8,
    rest: Seq<u8>,
)
    ensures
        tagged(flags, subspace, scoped(account_id, collection, rest)) == tagged(
            flags,
            subspace,
            scoped(account_id, collection, Seq::empty()),
        ) + rest,
{
    assert(tagged(flags, subspace, scoped(account_id, collection, rest)) =~= tagged(
        flags,
        subspace,
        scoped(account_id, collection, Seq::empty()),
    ) + rest);
}

/// The index entries of one document start with the same bytes, which
/// field and sortable value follow: a scan of that prefix meets every
/// entry of the document, whatever its field.
pub proof fn law_index_entries_share_document_prefix(key: IndexKey<Seq<u8>>, flags: u32)
    ensures
        key.bytes(flags) == tagged(
            flags,
            SUBSPACE_INDEXES,
            scoped(key.account_id, key.collection, be_bytes(key.document_id as nat, 4)),
        ) + (seq![key.field] + key.key),
{
    assert(key.bytes(flags) =~= tagged(
        flags,
        SUBSPACE_INDEXES,
        scoped(key.account_id, key.collection, be_bytes(key.document_id as nat, 4)),
    ) + (seq![key.field] + key.key));
}

/// With its subspace tag in front, a key starts with that tag: keys of
/// different subspaces never serialize alike.
pub proof fn law_subspace_leads(flags: u32, subspace: u8, body: Seq<u8>)
    requires
        has_flag(flags, WITH_SUBSPACE),
    ensures
        tagged(flags, subspace, body).len() > 0,
        tagged(flags, subspace, body)[0] == subspace,
{
}

} // verus!
