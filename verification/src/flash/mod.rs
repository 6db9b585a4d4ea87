//! The persistent key-value store: how keys are framed, what a request
//! holds, where a page lies in flash, and the order of steps that brings
//! the store up.
//!
//! The storage engine and the flash are driven by the application. It asks
//! this module what to do and reports what came of it.

use vstd::prelude::*;

pub mod init;

verus! {

/// Bytes of the discriminator that every key starts with.
pub const TYPE_KEY_LEN: usize = 16;

/// Bytes a key holds at most, discriminator included.
pub const MAX_KEY_SIZE: usize = 64;

/// Bytes a value holds at most.
pub const MAX_VALUE_SIZE: usize = 1024;

/// Bytes of one flash page.
pub const PAGE_SIZE: usize = 4096;

/// Marks a value as safe to hand to another task.
pub struct MkSend<T>(pub T);

/// The bytes of a key: the discriminator of the stored type, then the
/// secondary key in its wire form, if there is one.
pub open spec fn key_bytes(type_key: Seq<u8>, value_key: Option<Seq<u8>>) -> Seq<u8> {
    match value_key {
        Some(k) => type_key + k,
        None => type_key,
    }
}

/// Why a request cannot be made.
#[derive(Clone, Copy, Debug, PartialEq, Eq, Structural)]
pub enum StoreError {
    /// The key is longer than [`MAX_KEY_SIZE`].
    KeyTooLong,
    /// The value is longer than [`MAX_VALUE_SIZE`].
    ValueTooLong,
}

/// One transaction against the store.
#[derive(Debug)]
pub enum StoreRequest {
    Write { key: Vec<u8>, value: Vec<u8> },
    Read { key: Vec<u8> },
    Delete { key: Vec<u8> },
}

/// The length of the secondary key.
pub open spec fn tail_len(value_key: Option<Seq<u8>>) -> nat {
    match value_key {
        Some(k) => k.len(),
        None => 0,
    }
}

/// The secondary key as plain values.
pub open spec fn tail_of(value_key: Option<&Vec<u8>>) -> Option<Seq<u8>> {
    match value_key {
        Some(k) => Some(k@),
        None => None,
    }
}

/// The bytes of a discriminator as the start of a key.
fn discriminator(type_key: &[u8; 16]) -> (key: Vec<u8>)
    ensures
        key@ == type_key@,
{
    let mut key: Vec<u8> = Vec::new();
    let mut i: usize = 0;
    while i < TYPE_KEY_LEN
        invariant
            i <= TYPE_KEY_LEN,
            key@ == type_key@.take(i as int),
        decreases TYPE_KEY_LEN - i,
    {
        key.push(type_key[i]);
        assert(type_key@.take(i as int).push(type_key@[i as int]) =~= type_key@.take(i + 1));
        i += 1;
    }
    assert(type_key@.take(TYPE_KEY_LEN as int) =~= type_key@);
    key
}

/// Frames a key. Fails when the key would be longer than a key may be.
pub fn store_key(type_key: &[u8; 16], value_key: Option<&Vec<u8>>) -> (r: Result<Vec<u8>, StoreError>)
    ensures
        r is Ok <==> TYPE_KEY_LEN + tail_len(tail_of(value_key)) <= MAX_KEY_SIZE,
        r is Ok ==> r->Ok_0@ == key_bytes(type_key@, tail_of(value_key)),
        r is Err ==> r->Err_0 == StoreError::KeyTooLong,
{
    let mut key = discriminator(type_key);
    match value_key {
        Some(tail) => {
            if tail.len() > MAX_KEY_SIZE - TYPE_KEY_LEN {
                return Err(StoreError::KeyTooLong);
            }
            let mut j: usize = 0;
            while j < tail.len()
                invariant
                    j <= tail@.len(),
                    key@ == type_key@ + tail@.take(j as int),
                decreases tail@.len() - j,
            {
                key.push(tail[j]);
                assert((type_key@ + tail@.take(j as int)).push(tail@[j as int]) =~= type_key@
                    + tail@.take(j + 1));
                j += 1;
            }
            assert(tail@.take(tail@.len() as int) =~= tail@);
        },
        None => {},
    }
    Ok(key)
}

/// The request that stores `value` under the key of `type_key` and
/// `value_key`. A value that is too long is refused before the key is
/// looked at.
pub fn set_request(type_key: &[u8; 16], value_key: Option<&Vec<u8>>, value: Vec<u8>) -> (r: Result<
    StoreRequest,
    StoreError,
>)
    ensures
        r == (if value@.len() > MAX_VALUE_SIZE {
            Err::<StoreRequest, StoreError>(StoreError::ValueTooLong)
        } else if TYPE_KEY_LEN + tail_len(tail_of(value_key)) > MAX_KEY_SIZE {
            Err(StoreError::KeyTooLong)
        } else {
            Ok(StoreRequest::Write { key: r->Ok_0->Write_key, value })
        }),
        r is Ok ==> r->Ok_0 is Write && r->Ok_0->Write_key@ == key_bytes(
            type_key@,
            tail_of(value_key),
        ),
{
    if value.len() > MAX_VALUE_SIZE {
        return Err(StoreError::ValueTooLong);
    }
    match store_key(type_key, value_key) {
        Ok(key) => Ok(StoreRequest::Write { key, value }),
        Err(e) => Err(e),
    }
}

/// The request that reads what is stored under the key of `type_key` and
/// `value_key`.
pub fn get_request(type_key: &[u8; 16], value_key: Option<&Vec<u8>>) -> (r: Result<
    StoreRequest,
    StoreError,
>)
    ensures
        r is Ok <==> TYPE_KEY_LEN + tail_len(tail_of(value_key)) <= MAX_KEY_SIZE,
        r is Ok ==> r->Ok_0 is Read && r->Ok_0->Read_key@ == key_bytes(
            type_key@,
            tail_of(value_key),
        ),
        r is Err ==> r->Err_0 == StoreError::KeyTooLong,
{
    match store_key(type_key, value_key) {
        Ok(key) => Ok(StoreRequest::Read { key }),
        Err(e) => Err(e),
    }
}

/// The request that deletes what is stored under the key of `type_key` and
/// `value_key`.
pub fn delete_request(type_key: &[u8; 16], value_key: Option<&Vec<u8>>) -> (r: Result<
    StoreRequest,
    StoreError,
>)
    ensures
        r is Ok <==> TYPE_KEY_LEN + tail_len(tail_of(value_key)) <= MAX_KEY_SIZE,
        r is Ok ==> r->Ok_0 is Delete && r->Ok_0->Delete_key@ == key_bytes(
            type_key@,
            tail_of(value_key),
        ),
        r is Err ==> r->Err_0 == StoreError::KeyTooLong,
{
    match store_key(type_key, value_key) {
        Ok(key) => Ok(StoreRequest::Delete { key }),
        Err(e) => Err(e),
    }
}

/// The request that stores `value` as the one value of the type that
/// `type_key` stands for. Only a value that is too long is refused.
pub fn set(type_key: &[u8; 16], value: Vec<u8>) -> (r: Result<StoreRequest, StoreError>)
    ensures
        r is Ok <==> value@.len() <= MAX_VALUE_SIZE,
        r is Ok ==> r->Ok_0 == (StoreRequest::Write { key: r->Ok_0->Write_key, value })
            && r->Ok_0->Write_key@ == key_bytes(type_key@, None),
        r is Err ==> r->Err_0 == StoreError::ValueTooLong,
{
    set_request(type_key, None, value)
}

/// The request that stores `value` under the secondary key `key`, given in
/// its wire form, among the values of the type pair that `type_key` stands
/// for.
pub fn set_keyed(type_key: &[u8; 16], key: &Vec<u8>, value: Vec<u8>) -> (r: Result<
    StoreRequest,
    StoreError,
>)
    ensures
        r is Ok <==> value@.len() <= MAX_VALUE_SIZE && TYPE_KEY_LEN + key@.len() <= MAX_KEY_SIZE,
        r is Ok ==> r->Ok_0 == (StoreRequest::Write { key: r->Ok_0->Write_key, value })
            && r->Ok_0->Write_key@ == key_bytes(type_key@, Some(key@)),
        r is Err ==> r->Err_0 == (if value@.len() > MAX_VALUE_SIZE {
            StoreError::ValueTooLong
        } else {
            StoreError::KeyTooLong
        }),
{
    set_request(type_key, Some(key), value)
}

/// The request that reads the one value of the type that `type_key` stands
/// for.
pub fn get(type_key: &[u8; 16]) -> (r: StoreRequest)
    ensures
        r is Read,
        r->Read_key@ == key_bytes(type_key@, None),
{
    StoreRequest::Read { key: discriminator(type_key) }
}

/// The request that reads the value stored under the secondary key `key`.
pub fn get_keyed(type_key: &[u8; 16], key: &Vec<u8>) -> (r: Result<StoreRequest, StoreError>)
    ensures
        r is Ok <==> TYPE_KEY_LEN + key@.len() <= MAX_KEY_SIZE,
        r is Ok ==> r->Ok_0 is Read && r->Ok_0->Read_key@ == key_bytes(type_key@, Some(key@)),
        r is Err ==> r->Err_0 == StoreError::KeyTooLong,
{
    get_request(type_key, Some(key))
}

/// The request that deletes the one value of the type that `type_key`
/// stands for.
pub fn delete(type_key: &[u8; 16]) -> (r: StoreRequest)
    ensures
        r is Delete,
        r->Delete_key@ == key_bytes(type_key@, None),
{
    StoreRequest::Delete { key: discriminator(type_key) }
}

/// The request that deletes the value stored under the secondary key `key`.
pub fn delete_keyed(type_key: &[u8; 16], key: &Vec<u8>) -> (r: Result<StoreRequest, StoreError>)
    ensures
        r is Ok <==> TYPE_KEY_LEN + key@.len() <= MAX_KEY_SIZE,
        r is Ok ==> r->Ok_0 is Delete && r->Ok_0->Delete_key@ == key_bytes(
            type_key@,
            Some(key@),
        ),
        r is Err ==> r->Err_0 == StoreError::KeyTooLong,
{
    delete_request(type_key, Some(key))
}

/// Keys do not collide: two keys with discriminators of the fixed width
/// are the same bytes only if the discriminators are the same and the
/// secondary keys hold the same bytes.
pub proof fn lemma_keys_are_distinct(
    type_a: Seq<u8>,
    key_a: Option<Seq<u8>>,
    type_b: Seq<u8>,
    key_b: Option<Seq<u8>>,
)
    requires
        type_a.len() == TYPE_KEY_LEN,
        type_b.len() == TYPE_KEY_LEN,
        key_bytes(type_a, key_a) == key_bytes(type_b, key_b),
    ensures
        type_a == type_b,
        key_bytes(Seq::empty(), key_a) == key_bytes(Seq::empty(), key_b),
{
    let a = key_bytes(type_a, key_a);
    let b = key_bytes(type_b, key_b);
    assert(a.take(16) =~= type_a);
    assert(b.take(16) =~= type_b);
    assert(a.skip(16) =~= key_bytes(Seq::empty(), key_a));
    assert(b.skip(16) =~= key_bytes(Seq::empty(), key_b));
}

/// What a store holds, seen as a map from key bytes to value bytes.
pub type StoreModel = Map<Seq<u8>, Seq<u8>>;

/// What a committed request leaves in a store that behaves as a map.
pub open spec fn committed(store: StoreModel, request: StoreRequest) -> StoreModel {
    match request {
        StoreRequest::Write { key, value } => store.insert(key@, value@),
        StoreRequest::Read { key } => store,
        StoreRequest::Delete { key } => store.remove(key@),
    }
}

/// What a read of `key` finds in a store that behaves as a map.
pub open spec fn found(store: StoreModel, key: Seq<u8>) -> Option<Seq<u8>> {
    if store.dom().contains(key) {
        Some(store[key])
    } else {
        None
    }
}

/// Against a store that behaves as a map, a value that was set is read
/// back byte for byte, the last value set wins, a deleted value is gone,
/// and neither disturbs what is stored under another type or another
/// secondary key.
pub proof fn lemma_store_round_trip(
    store: StoreModel,
    type_a: Seq<u8>,
    key_a: Option<Seq<u8>>,
    value: Seq<u8>,
    type_b: Seq<u8>,
    key_b: Option<Seq<u8>>,
)
    requires
        type_a.len() == TYPE_KEY_LEN,
        type_b.len() == TYPE_KEY_LEN,
    ensures
        found(store.insert(key_bytes(type_a, key_a), value), key_bytes(type_a, key_a)) == Some(
            value,
        ),
        forall|earlier: Seq<u8>|
            found(
                store.insert(key_bytes(type_a, key_a), earlier).insert(
                    key_bytes(type_a, key_a),
                    value,
                ),
                key_bytes(type_a, key_a),
            ) == Some(value),
        found(store.remove(key_bytes(type_a, key_a)), key_bytes(type_a, key_a)) is None,
        (type_a != type_b || key_bytes(Seq::empty(), key_a) != key_bytes(Seq::empty(), key_b))
            ==> found(store.insert(key_bytes(type_a, key_a), value), key_bytes(type_b, key_b))
            == found(store, key_bytes(type_b, key_b)) && found(
            store.remove(key_bytes(type_a, key_a)),
            key_bytes(type_b, key_b),
        ) == found(store, key_bytes(type_b, key_b)),
{
    if key_bytes(type_a, key_a) == key_bytes(type_b, key_b) {
        lemma_keys_are_distinct(type_a, key_a, type_b, key_b);
    }
}

/// What a committed read request finds in a store that behaves as a map.
pub open spec fn answer(store: StoreModel, request: StoreRequest) -> Option<Seq<u8>> {
    match request {
        StoreRequest::Read { key } => found(store, key@),
        _ => None,
    }
}

/// Set, then get: against a store that behaves as a map, the read request
/// for a type and secondary key finds the value of the last write request
/// for the same type and secondary key, byte for byte, whatever was stored
/// before.
pub proof fn lemma_set_then_get(
    store: StoreModel,
    type_key: Seq<u8>,
    value_key: Option<Seq<u8>>,
    write: StoreRequest,
    read: StoreRequest,
)
    requires
        write is Write,
        write->Write_key@ == key_bytes(type_key, value_key),
        read is Read,
        read->Read_key@ == key_bytes(type_key, value_key),
    ensures
        answer(committed(store, write), read) == Some(write->Write_value@),
{
}

/// Delete, then get: against a store that behaves as a map, the read
/// request finds nothing once the delete request for the same type and
/// secondary key is committed, whether or not a value was stored before.
pub proof fn lemma_delete_then_get(
    store: StoreModel,
    type_key: Seq<u8>,
    value_key: Option<Seq<u8>>,
    delete: StoreRequest,
    read: StoreRequest,
)
    requires
        delete is Delete,
        delete->Delete_key@ == key_bytes(type_key, value_key),
        read is Read,
        read->Read_key@ == key_bytes(type_key, value_key),
    ensures
        answer(committed(store, delete), read) is None,
{
}

/// The flash address of byte `offset` of page `page` of a store that
/// starts at `start`.
pub open spec fn page_address_spec(start: usize, page: usize, offset: usize) -> int {
    start + page * PAGE_SIZE + offset
}

/// The flash address of byte `offset` of page `page`, if it is an address
/// of the 32-bit flash.
pub fn page_address(start: usize, page: usize, offset: usize) -> (r: Option<u32>)
    ensures
        r is Some <==> page_address_spec(start, page, offset) <= u32::MAX,
        r is Some ==> r->0 == page_address_spec(start, page, offset),
{
    if page > 0xFFFFF || start > 0xFFFF_FFFF || offset > 0xFFFF_FFFF {
        assert(page > 0xFFFFF ==> page * PAGE_SIZE > u32::MAX) by (nonlinear_arith);
        return None;
    }
    assert(page * PAGE_SIZE <= 0xFFFFF * 4096) by (nonlinear_arith)
        requires
            page <= 0xFFFFF,
    ;
    let address: u64 = start as u64 + (page as u64) * (PAGE_SIZE as u64) + offset as u64;
    if address > 0xFFFF_FFFF {
        None
    } else {
        Some(address as u32)
    }
}

/// The range of flash addresses that erasing page `page` clears: from its
/// first byte up to, not including, the first byte of the next page.
pub fn erase_range(start: usize, page: usize) -> (r: Option<(u32, u32)>)
    ensures
        r is Some <==> page_address_spec(start, page, PAGE_SIZE) <= u32::MAX,
        match r {
            Some(range) => range.0 == page_address_spec(start, page, 0) && range.1
                == page_address_spec(start, page, PAGE_SIZE),
            None => true,
        },
{
    match page_address(start, page, PAGE_SIZE) {
        Some(to) => Some((to - PAGE_SIZE as u32, to)),
        None => None,
    }
}

/// The whole pages between two addresses; none if the end lies before the
/// start.
pub fn page_count(start: usize, end: usize) -> (r: usize)
    ensures
        r == (if end >= start {
            (end - start) / (PAGE_SIZE as int)
        } else {
            0
        }),
{
    if end >= start {
        (end - start) / PAGE_SIZE
    } else {
        0
    }
}

/// Whether `len` bytes at `offset` lie within one page, so that they can be
/// staged in an aligned page buffer.
pub fn fits_page(offset: usize, len: usize) -> (r: bool)
    ensures
        r == (offset + len <= PAGE_SIZE),
{
    offset <= PAGE_SIZE && len <= PAGE_SIZE - offset
}

} // verus!
