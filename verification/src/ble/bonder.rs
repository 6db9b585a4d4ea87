//! The table of bonded peers.
//!
//! The table holds the keys of up to eight peers in a small linear map,
//! found by the peer's address. When a ninth peer bonds, one of the others
//! makes room.

use vstd::prelude::*;
use heapless::LinearMap;

verus! {

/// Peers the table holds at most.
pub const BOND_CAPACITY: usize = 8;

/// Bytes of system attributes kept per peer at most.
pub const SYS_ATTRS_MAX_LEN: usize = 64;

/// The long-term key of a bond.
#[derive(Clone, Copy, Debug)]
pub struct EncryptionInfo {
    pub ltk: [u8; 16],
    pub flags: u8,
}

/// What a peer names its key by.
#[derive(Clone, Copy, Debug)]
pub struct MasterId {
    pub ediv: u16,
    pub rand: [u8; 8],
}

/// The address of a peer.
#[derive(Clone, Copy, Debug)]
pub struct Address {
    pub flags: u8,
    pub bytes: [u8; 6],
}

/// The identity of a peer.
#[derive(Clone, Copy, Debug)]
pub struct IdentityKey {
    pub irk: [u8; 16],
    pub addr: Address,
}

/// All that is kept of one bond.
#[derive(Clone, Debug)]
pub struct BondInfo {
    pub encryption: EncryptionInfo,
    pub master_id: MasterId,
    pub identity_key: IdentityKey,
    pub sys_attrs: Vec<u8>,
}

/// A bond as plain values.
pub struct BondRecord {
    pub encryption: EncryptionInfo,
    pub master_id: MasterId,
    pub identity_key: IdentityKey,
    pub sys_attrs: Seq<u8>,
}

impl View for BondInfo {
    type V = BondRecord;

    open spec fn view(&self) -> BondRecord {
        BondRecord {
            encryption: self.encryption,
            master_id: self.master_id,
            identity_key: self.identity_key,
            sys_attrs: self.sys_attrs@,
        }
    }
}

/// The number that stands for an address in the table: its flags in the
/// lowest byte, then its six bytes, the first lowest.
pub open spec fn address_key(addr: Address) -> u64 {
    (addr.flags as u64 + addr.bytes[0] as u64 * 0x100 + addr.bytes[1] as u64 * 0x1_0000
        + addr.bytes[2] as u64 * 0x100_0000 + addr.bytes[3] as u64 * 0x1_0000_0000
        + addr.bytes[4] as u64 * 0x100_0000_0000 + addr.bytes[5] as u64 * 0x1_0000_0000_0000) as u64
}

/// Packs an address into the number the table finds it by.
pub fn pack_address(addr: &Address) -> (r: u64)
    ensures
        r == address_key(*addr),
{
    addr.flags as u64 + addr.bytes[0] as u64 * 0x100 + addr.bytes[1] as u64 * 0x1_0000
        + addr.bytes[2] as u64 * 0x100_0000 + addr.bytes[3] as u64 * 0x1_0000_0000
        + addr.bytes[4] as u64 * 0x100_0000_0000 + addr.bytes[5] as u64 * 0x1_0000_0000_0000
}

/// Different addresses have different numbers.
pub proof fn lemma_address_key_is_injective(a: Address, b: Address)
    requires
        address_key(a) == address_key(b),
    ensures
        a.flags == b.flags,
        a.bytes@ == b.bytes@,
{
    lemma_address_key_bytes(a);
    lemma_address_key_bytes(b);
    assert(a.bytes@ =~= b.bytes@);
}

/// Each byte of an address can be read off its number.
pub proof fn lemma_address_key_bytes(a: Address)
    ensures
        a.flags == address_key(a) % 0x100,
        a.bytes[0] == (address_key(a) / 0x100) % 0x100,
        a.bytes[1] == (address_key(a) / 0x1_0000) % 0x100,
        a.bytes[2] == (address_key(a) / 0x100_0000) % 0x100,
        a.bytes[3] == (address_key(a) / 0x1_0000_0000) % 0x100,
        a.bytes[4] == (address_key(a) / 0x100_0000_0000) % 0x100,
        a.bytes[5] == (address_key(a) / 0x1_0000_0000_0000) % 0x100,
{
    let f = a.flags as int;
    let b0 = a.bytes[0] as int;
    let b1 = a.bytes[1] as int;
    let b2 = a.bytes[2] as int;
    let b3 = a.bytes[3] as int;
    let b4 = a.bytes[4] as int;
    let b5 = a.bytes[5] as int;
    let k = f + b0 * 0x100 + b1 * 0x1_0000 + b2 * 0x100_0000 + b3 * 0x1_0000_0000 + b4
        * 0x100_0000_0000 + b5 * 0x1_0000_0000_0000;
    assert(address_key(a) == k);
    lemma_digits(f, b0, b1, b2, b3, b4, b5);
}

/// The digits of a number written to the base 256 can be read off it.
proof fn lemma_digits(f: int, b0: int, b1: int, b2: int, b3: int, b4: int, b5: int)
    requires
        0 <= f < 256,
        0 <= b0 < 256,
        0 <= b1 < 256,
        0 <= b2 < 256,
        0 <= b3 < 256,
        0 <= b4 < 256,
        0 <= b5 < 256,
    ensures
        ({
            let k = f + b0 * 0x100 + b1 * 0x1_0000 + b2 * 0x100_0000 + b3 * 0x1_0000_0000 + b4
                * 0x100_0000_0000 + b5 * 0x1_0000_0000_0000;
            &&& f == k % 0x100
            &&& b0 == (k / 0x100) % 0x100
            &&& b1 == (k / 0x1_0000) % 0x100
            &&& b2 == (k / 0x100_0000) % 0x100
            &&& b3 == (k / 0x1_0000_0000) % 0x100
            &&& b4 == (k / 0x100_0000_0000) % 0x100
            &&& b5 == (k / 0x1_0000_0000_0000) % 0x100
        }),
{
    let r5 = b5;
    let r4 = b4 + 256 * r5;
    let r3 = b3 + 256 * r4;
    let r2 = b2 + 256 * r3;
    let r1 = b1 + 256 * r2;
    let r0 = b0 + 256 * r1;
    let k = f + 256 * r0;
    assert(k == f + b0 * 0x100 + b1 * 0x1_0000 + b2 * 0x100_0000 + b3 * 0x1_0000_0000 + b4
        * 0x100_0000_0000 + b5 * 0x1_0000_0000_0000);
    assert(k / 0x100 == r0 && k % 0x100 == f);
    assert(r0 / 0x100 == r1 && r0 % 0x100 == b0);
    assert(r1 / 0x100 == r2 && r1 % 0x100 == b1);
    assert(r2 / 0x100 == r3 && r2 % 0x100 == b2);
    assert(r3 / 0x100 == r4 && r3 % 0x100 == b3);
    assert(r4 / 0x100 == r5 && r4 % 0x100 == b4);
    assert(k / 0x1_0000 == r1) by {
        assert(k == (f + 256 * b0) + 0x1_0000 * r1);
    }
    assert(k / 0x100_0000 == r2) by {
        assert(k == (f + 256 * b0 + 0x1_0000 * b1) + 0x100_0000 * r2);
    }
    assert(k / 0x1_0000_0000 == r3) by {
        assert(k == (f + 256 * b0 + 0x1_0000 * b1 + 0x100_0000 * b2) + 0x1_0000_0000 * r3);
    }
    assert(k / 0x100_0000_0000 == r4) by {
        assert(k == (f + 256 * b0 + 0x1_0000 * b1 + 0x100_0000 * b2 + 0x1_0000_0000 * b3)
            + 0x100_0000_0000 * r4);
    }
    assert(k / 0x1_0000_0000_0000 == r5) by {
        assert(k == (f + 256 * b0 + 0x1_0000 * b1 + 0x100_0000 * b2 + 0x1_0000_0000 * b3
            + 0x100_0000_0000 * b4) + 0x1_0000_0000_0000 * r5);
    }
}

#[verifier::external_type_specification]
#[verifier::external_body]
#[verifier::reject_recursive_types(K)]
#[verifier::reject_recursive_types(V)]
pub struct ExLinearMap<K, V, const N: usize>(LinearMap<K, V, N>);


/// The bonds that a map holds, by address number.
pub uninterp spec fn bond_entries(map: LinearMap<u64, BondInfo, 8>) -> Map<u64, BondRecord>;

/// `LinearMap::new`: a map that holds nothing.
#[verifier::external_body]
fn map_new() -> (fresh: LinearMap<u64, BondInfo, 8>)
    ensures
        bond_entries(fresh) == (Map::<u64, BondRecord>::empty()),
{
    LinearMap::new()
}

/// `LinearMap::len`: the number of bonds in the map.
#[verifier::external_body]
fn map_len(map: &LinearMap<u64, BondInfo, 8>) -> (n: usize)
    ensures
        n == bond_entries(*map).dom().len(),
{
    map.len()
}

/// `LinearMap::get`: a copy of the bond stored under `key`, if there is
/// one.
#[verifier::external_body]
fn map_get(map: &LinearMap<u64, BondInfo, 8>, key: u64) -> (info: Option<BondInfo>)
    ensures
        info is Some <==> bond_entries(*map).dom().contains(key),
        info is Some ==> info->0@ == bond_entries(*map)[key],
{
    map.get(&key).cloned()
}

/// `LinearMap::insert`: stores the bond under `key`. A key that is in the
/// map gets the new bond; a new key is taken only while the map holds
/// fewer than eight, and otherwise the map stays as it is.
#[verifier::external_body]
fn map_insert(map: &mut LinearMap<u64, BondInfo, 8>, key: u64, info: BondInfo) -> (stored: bool)
    ensures
        stored == (bond_entries(*old(map)).dom().contains(key) || bond_entries(
            *old(map),
        ).dom().len() < BOND_CAPACITY),
        stored ==> bond_entries(*final(map)) == bond_entries(*old(map)).insert(key, info@),
        !stored ==> bond_entries(*final(map)) == bond_entries(*old(map)),
{
    map.insert(key, info).is_ok()
}

/// `LinearMap::remove`: takes the bond under `key` out of the map.
#[verifier::external_body]
fn map_remove(map: &mut LinearMap<u64, BondInfo, 8>, key: u64) -> (removed: bool)
    ensures
        removed == bond_entries(*old(map)).dom().contains(key),
        bond_entries(*final(map)) == bond_entries(*old(map)).remove(key),
{
    map.remove(&key).is_some()
}

/// The key that comes first when a map is walked, if it holds any.
pub uninterp spec fn bond_first(map: LinearMap<u64, BondInfo, 8>) -> Option<u64>;

/// `LinearMap::iter`, first item: the key that comes first when the map is
/// walked. It is the key of a bond of the map; an empty map has none.
#[verifier::external_body]
fn map_any_key(map: &LinearMap<u64, BondInfo, 8>) -> (key: Option<u64>)
    ensures
        key == bond_first(*map),
        key is Some ==> bond_entries(*map).dom().contains(key->0),
        key is None ==> forall|k: u64| !bond_entries(*map).dom().contains(k),
{
    map.iter().next().map(|(k, _)| *k)
}

/// `LinearMap::keys`: the keys of all bonds of the map.
#[verifier::external_body]
fn map_keys(map: &LinearMap<u64, BondInfo, 8>) -> (keys: Vec<u64>)
    ensures
        keys@.to_set() == bond_entries(*map).dom(),
        keys@.no_duplicates(),
{
    map.keys().copied().collect()
}

/// The bond that is kept when a peer bonds: its keys are new; the system
/// attributes of a peer that was bonded before stay.
pub open spec fn bonded_record(
    before: Option<BondRecord>,
    master_id: MasterId,
    key: EncryptionInfo,
    peer_id: IdentityKey,
) -> BondRecord {
    BondRecord {
        encryption: key,
        master_id,
        identity_key: peer_id,
        sys_attrs: match before {
            Some(b) => b.sys_attrs,
            None => Seq::empty(),
        },
    }
}

/// The table that the first `n` of the given bonds load into: each is
/// stored under the number of its address if that peer is in the table
/// already or the table has room.
pub open spec fn loaded(bonds: Seq<(Address, BondInfo)>, n: nat) -> Map<u64, BondRecord>
    decreases n,
{
    if n == 0 {
        Map::empty()
    } else {
        let before = loaded(bonds, (n - 1) as nat);
        let key = address_key(bonds[n - 1].0);
        if before.dom().contains(key) || before.dom().len() < BOND_CAPACITY {
            before.insert(key, bonds[n - 1].1@)
        } else {
            before
        }
    }
}

/// Whether two identifiers are the same.
pub open spec fn same_master(a: MasterId, b: MasterId) -> bool {
    a.ediv == b.ediv && a.rand@ == b.rand@
}

/// The table of bonded peers.
pub struct Bonder {
    data: LinearMap<u64, BondInfo, 8>,
}

impl View for Bonder {
    type V = Map<u64, BondRecord>;

    closed spec fn view(&self) -> Map<u64, BondRecord> {
        bond_entries(self.data)
    }
}

impl Bonder {
    /// The table never holds more peers than it has room for, and never
    /// more system attributes for a peer than the radio hands out.
    pub open spec fn wf(&self) -> bool {
        &&& self@.dom().finite()
        &&& self@.dom().len() <= BOND_CAPACITY
        &&& forall|k: u64|
            self@.dom().contains(k) ==> (#[trigger] self@[k]).sys_attrs.len() <= SYS_ATTRS_MAX_LEN
    }

    /// The address number of the peer that comes first when the table is
    /// walked, if it holds any. This is the peer that makes room when the
    /// table is full.
    pub closed spec fn first_peer(&self) -> Option<u64> {
        bond_first(self.data)
    }

    /// An empty table.
    pub fn new() -> (r: Self)
        ensures
            r.wf(),
            r@ == Map::<u64, BondRecord>::empty(),
    {
        Bonder { data: map_new() }
    }

    /// A table with the given bonds. They are taken in order; a bond for a
    /// new peer that comes when the table is full is left out.
    pub fn load_bonder(bonds: &Vec<(Address, BondInfo)>) -> (r: Self)
        requires
            forall|i: int|
                0 <= i < bonds@.len() ==> (#[trigger] bonds@[i]).1.sys_attrs@.len()
                    <= SYS_ATTRS_MAX_LEN,
        ensures
            r.wf(),
            r@ == loaded(bonds@, bonds@.len()),
    {
        let mut table = Bonder::new();
        let mut i: usize = 0;
        while i < bonds.len()
            invariant
                i <= bonds@.len(),
                table.wf(),
                table@ == loaded(bonds@, i as nat),
                forall|k: int|
                    0 <= k < bonds@.len() ==> (#[trigger] bonds@[k]).1.sys_attrs@.len()
                        <= SYS_ATTRS_MAX_LEN,
            decreases bonds@.len() - i,
        {
            let ghost before = table@;
            let key = pack_address(&bonds[i].0);
            let info = BondInfo {
                encryption: bonds[i].1.encryption,
                master_id: bonds[i].1.master_id,
                identity_key: bonds[i].1.identity_key,
                sys_attrs: bonds[i].1.sys_attrs.clone(),
            };
            assert(info@ == bonds@[i as int].1@);
            let stored = map_insert(&mut table.data, key, info);
            assert(stored ==> table@.dom() =~= before.dom().insert(key));
            i += 1;
        }
        table
    }

    /// How many peers are bonded.
    pub fn len(&self) -> (r: usize)
        requires
            self.wf(),
        ensures
            r == self@.dom().len(),
            r <= BOND_CAPACITY,
    {
        map_len(&self.data)
    }

    /// The address numbers of the bonded peers.
    pub fn addresses(&self) -> (r: Vec<u64>)
        ensures
            r@.to_set() == self@.dom(),
            r@.no_duplicates(),
    {
        map_keys(&self.data)
    }

    /// The address number of the peer that comes first when the table is
    /// walked: the one that makes room when the table is full.
    pub fn first_in_order(&self) -> (r: Option<u64>)
        ensures
            r == self.first_peer(),
            r is Some ==> self@.dom().contains(r->0),
            r is None ==> forall|k: u64| !self@.dom().contains(k),
    {
        map_any_key(&self.data)
    }

    /// The bond of a peer, if it is bonded.
    pub fn bond_of(&self, peer: &Address) -> (r: Option<BondInfo>)
        ensures
            r is Some <==> self@.dom().contains(address_key(*peer)),
            r is Some ==> r->0@ == self@[address_key(*peer)],
    {
        map_get(&self.data, pack_address(peer))
    }

    /// Records a bond. A peer that is bonded already gets its new keys and
    /// keeps its system attributes. A new peer is added with no system
    /// attributes; if the table is full, one of the others is evicted for
    /// it first.
    pub fn on_bonded(&mut self, master_id: MasterId, key: EncryptionInfo, peer_id: IdentityKey)
        requires
            old(self).wf(),
        ensures
            final(self).wf(),
            final(self)@.dom().contains(address_key(peer_id.addr)),
            final(self)@[address_key(peer_id.addr)] == bonded_record(
                if old(self)@.dom().contains(address_key(peer_id.addr)) {
                    Some(old(self)@[address_key(peer_id.addr)])
                } else {
                    None
                },
                master_id,
                key,
                peer_id,
            ),
            old(self)@.dom().contains(address_key(peer_id.addr)) || old(self)@.dom().len()
                < BOND_CAPACITY ==> final(self)@ == old(self)@.insert(
                address_key(peer_id.addr),
                final(self)@[address_key(peer_id.addr)],
            ),
            !old(self)@.dom().contains(address_key(peer_id.addr)) && old(self)@.dom().len()
                == BOND_CAPACITY ==> old(self).first_peer() is Some && old(self)@.dom().contains(
                old(self).first_peer()->0,
            ) && final(self)@ == old(self)@.remove(old(self).first_peer()->0).insert(
                address_key(peer_id.addr),
                final(self)@[address_key(peer_id.addr)],
            ),
            final(self)@.dom().len() == (if old(self)@.dom().contains(address_key(peer_id.addr))
                || old(self)@.dom().len() == BOND_CAPACITY {
                old(self)@.dom().len()
            } else {
                old(self)@.dom().len() + 1
            }),
    {
        let k = pack_address(&peer_id.addr);
        let ghost before = self@;
        match map_get(&self.data, k) {
            Some(known) => {
                let info = BondInfo {
                    encryption: key,
                    master_id,
                    identity_key: peer_id,
                    sys_attrs: known.sys_attrs,
                };
                let _ = map_insert(&mut self.data, k, info);
                assert(before.insert(k, info@).dom() =~= before.dom());
            },
            None => {
                let info = BondInfo {
                    encryption: key,
                    master_id,
                    identity_key: peer_id,
                    sys_attrs: Vec::new(),
                };
                if map_len(&self.data) >= BOND_CAPACITY {
                    match map_any_key(&self.data) {
                        Some(evicted) => {
                            let _ = map_remove(&mut self.data, evicted);
                            let ghost after = before.remove(evicted);
                            assert(after.dom() =~= before.dom().remove(evicted));
                            let stored = map_insert(&mut self.data, k, info);
                            assert(stored);
                            assert(after.insert(k, info@).dom() =~= after.dom().insert(k));
                            assert(before.dom().contains(evicted));
                        },
                        None => {
                            assert(before.dom() =~= Set::<u64>::empty());
                        },
                    }
                } else {
                    let _ = map_insert(&mut self.data, k, info);
                    assert(before.insert(k, info@).dom() =~= before.dom().insert(k));
                }
            },
        }
    }

    /// The key of a bonded peer, if the peer names it by the identifier
    /// that was saved with it.
    pub fn get_key(&self, peer: &Address, master_id: &MasterId) -> (r: Option<EncryptionInfo>)
        ensures
            r == (if self@.dom().contains(address_key(*peer)) && same_master(
                self@[address_key(*peer)].master_id,
                *master_id,
            ) {
                Some(self@[address_key(*peer)].encryption)
            } else {
                None
            }),
    {
        match map_get(&self.data, pack_address(peer)) {
            Some(info) => {
                if info.master_id.ediv == master_id.ediv && same_bytes(
                    &info.master_id.rand,
                    &master_id.rand,
                ) {
                    Some(info.encryption)
                } else {
                    None
                }
            },
            None => None,
        }
    }

    /// Keeps the system attributes of a bonded peer. Says whether the peer
    /// is bonded; for another peer nothing is kept.
    pub fn save_sys_attrs(&mut self, peer: &Address, attrs: Vec<u8>) -> (saved: bool)
        requires
            old(self).wf(),
            attrs@.len() <= SYS_ATTRS_MAX_LEN,
        ensures
            final(self).wf(),
            saved == old(self)@.dom().contains(address_key(*peer)),
            saved ==> final(self)@ == old(self)@.insert(
                address_key(*peer),
                BondRecord {
                    encryption: old(self)@[address_key(*peer)].encryption,
                    master_id: old(self)@[address_key(*peer)].master_id,
                    identity_key: old(self)@[address_key(*peer)].identity_key,
                    sys_attrs: attrs@,
                },
            ),
            !saved ==> final(self)@ == old(self)@,
    {
        let k = pack_address(peer);
        let ghost before = self@;
        match map_get(&self.data, k) {
            Some(known) => {
                let info = BondInfo {
                    encryption: known.encryption,
                    master_id: known.master_id,
                    identity_key: known.identity_key,
                    sys_attrs: attrs,
                };
                let _ = map_insert(&mut self.data, k, info);
                assert(before.insert(k, info@).dom() =~= before.dom());
                true
            },
            None => false,
        }
    }

    /// The system attributes kept for a peer, if it is bonded.
    pub fn load_sys_attrs(&self, peer: &Address) -> (r: Option<Vec<u8>>)
        ensures
            r is Some <==> self@.dom().contains(address_key(*peer)),
            r is Some ==> r->0@ == self@[address_key(*peer)].sys_attrs,
    {
        match map_get(&self.data, pack_address(peer)) {
            Some(info) => Some(info.sys_attrs),
            None => None,
        }
    }
}

/// Whether two runs of eight bytes are the same.
fn same_bytes(a: &[u8; 8], b: &[u8; 8]) -> (r: bool)
    ensures
        r == (a@ == b@),
{
    let mut k: usize = 0;
    while k < 8
        invariant
            k <= 8,
            forall|m: int| 0 <= m < k ==> a@[m] == b@[m],
        decreases 8 - k,
    {
        if a[k] != b[k] {
            assert(a@[k as int] != b@[k as int]);
            return false;
        }
        k += 1;
    }
    assert(a@ =~= b@);
    true
}

/// A key that was saved is found again: after a peer bonded, asking for
/// its key by the identifier it bonded with gives the key it bonded with.
pub proof fn lemma_bonded_key_is_found(
    table: Map<u64, BondRecord>,
    master_id: MasterId,
    key: EncryptionInfo,
    peer_id: IdentityKey,
)
    ensures
        ({
            let k = address_key(peer_id.addr);
            let before = if table.dom().contains(k) {
                Some(table[k])
            } else {
                None
            };
            let after = table.insert(k, bonded_record(before, master_id, key, peer_id));
            &&& after.dom().contains(k)
            &&& same_master(after[k].master_id, master_id)
            &&& after[k].encryption == key
        }),
{
}

} // verus!
