//! The device store: device records and the relays associated with them.

use vstd::prelude::*;
use crate::ict_codec::{be_value, id_from_blob};
use crate::ict_crypto::{public_key_from_der, public_key_of_der};
use crate::ict_errors::ICTError;

verus! {

/// A registered device, as the store holds it.
#[derive(Debug, Clone, PartialEq, Eq)]
pub struct Device {
    /// The device's UUID as a 128-bit number, most significant byte first.
    pub id: u128,
    /// The device's RSA public key in its DER encoding (SubjectPublicKeyInfo).
    pub wrapped_pk: Vec<u8>,
    /// The raw bytes of the secret that the device's one-time codes derive from.
    pub totp_secret: Vec<u8>,
    /// Whether operate requests of the device may be honoured.
    pub authorized: bool,
}

/// One association of a relay with a device.
#[derive(Debug, Clone, Copy, PartialEq, Eq)]
pub struct Relay {
    pub device_id: u128,
    pub relay_id: u8,
}

/// The mathematical value of a [`Device`].
pub struct DeviceRecord {
    pub id: u128,
    pub public_key: Seq<u8>,
    pub secret: Seq<u8>,
    pub authorized: bool,
}

impl View for Device {
    type V = DeviceRecord;

    open spec fn view(&self) -> DeviceRecord {
        DeviceRecord {
            id: self.id,
            public_key: self.wrapped_pk@,
            secret: self.totp_secret@,
            authorized: self.authorized,
        }
    }
}

/// The relays that belong to the device `id`.
pub open spec fn owned_by(id: u128) -> spec_fn(Relay) -> bool {
    |r: Relay| r.device_id == id
}

/// The relays that belong to any device but `id`.
pub open spec fn not_owned_by(id: u128) -> spec_fn(Relay) -> bool {
    |r: Relay| r.device_id != id
}

/// The device records other than that of `id`.
pub open spec fn other_than(id: u128) -> spec_fn(DeviceRecord) -> bool {
    |d: DeviceRecord| d.id != id
}

/// The relay identifiers that `relays` associates with the device `id`, in
/// their order.
pub open spec fn relay_ids(relays: Seq<Relay>, id: u128) -> Seq<u8> {
    relays.filter(owned_by(id)).map_values(|r: Relay| r.relay_id)
}

/// One more association adds its relay at the end of the relays of its
/// device, and nothing to those of another.
pub proof fn lemma_relay_ids_push(relays: Seq<Relay>, last: Relay, id: u128)
    ensures
        relay_ids(relays.push(last), id) == if last.device_id == id {
            relay_ids(relays, id).push(last.relay_id)
        } else {
            relay_ids(relays, id)
        },
{
    relays.lemma_filter_push(last, owned_by(id));
    if last.device_id == id {
        assert(relays.filter(owned_by(id)).push(last).map_values(|r: Relay| r.relay_id)
            =~= relay_ids(relays, id).push(last.relay_id));
    }
}

/// The mathematical value of a [`Db`]: the device records and the relay
/// associations, each in the order in which they were added.
pub struct Store {
    pub devices: Seq<DeviceRecord>,
    pub relays: Seq<Relay>,
}

impl Store {
    /// The store without any record.
    pub open spec fn empty() -> Store {
        Store { devices: Seq::empty(), relays: Seq::empty() }
    }

    /// No two device records share an identifier.
    pub open spec fn wf(self) -> bool {
        forall|i: int, j: int|
            0 <= i < j < self.devices.len() ==> (#[trigger] self.devices[i]).id != (
            #[trigger] self.devices[j]).id
    }

    /// Every relay association refers to a registered device.
    pub open spec fn anchored(self) -> bool {
        forall|k: int|
            0 <= k < self.relays.len() ==> self.has_device((#[trigger] self.relays[k]).device_id)
    }

    /// Whether a device is registered under `id`.
    pub open spec fn has_device(self, id: u128) -> bool {
        exists|i: int| 0 <= i < self.devices.len() && (#[trigger] self.devices[i]).id == id
    }

    /// The record registered under `id`, if there is one.
    pub open spec fn device(self, id: u128) -> Option<DeviceRecord> {
        if self.has_device(id) {
            Some(
                self.devices[choose|i: int|
                    0 <= i < self.devices.len() && (#[trigger] self.devices[i]).id == id],
            )
        } else {
            None
        }
    }

    /// The relay identifiers associated with `id`, in the order of association.
    pub open spec fn relays_of(self, id: u128) -> Seq<u8> {
        relay_ids(self.relays, id)
    }

    /// The store after `device` was appended to the device records.
    pub open spec fn with_device(self, device: DeviceRecord) -> Store {
        Store { devices: self.devices.push(device), relays: self.relays }
    }

    /// The store after the record with `device`'s identifier, if there is one,
    /// was replaced by `device`.
    pub open spec fn with_record(self, device: DeviceRecord) -> Store {
        Store {
            devices: self.devices.map_values(
                |d: DeviceRecord|
                    if d.id == device.id {
                        device
                    } else {
                        d
                    },
            ),
            relays: self.relays,
        }
    }

    /// The store after the authorization flag of `id`, if it is registered,
    /// was set to `authorized`.
    pub open spec fn with_authorization(self, id: u128, authorized: bool) -> Store {
        Store {
            devices: self.devices.map_values(
                |d: DeviceRecord|
                    if d.id == id {
                        DeviceRecord { authorized, ..d }
                    } else {
                        d
                    },
            ),
            relays: self.relays,
        }
    }

    /// The store after the record of `id` was removed; its relays stay.
    pub open spec fn without_device(self, id: u128) -> Store {
        Store { devices: self.devices.filter(other_than(id)), relays: self.relays }
    }

    /// The store after `relay_id` was associated with `device_id`.
    pub open spec fn with_relay(self, device_id: u128, relay_id: u8) -> Store {
        Store { devices: self.devices, relays: self.relays.push(Relay { device_id, relay_id }) }
    }

    /// The store after every relay of `id` was removed.
    pub open spec fn without_relays(self, id: u128) -> Store {
        Store { devices: self.devices, relays: self.relays.filter(not_owned_by(id)) }
    }
}

/// In a store without duplicate identifiers, the record found under an
/// identifier is the one at any position that holds that identifier.
pub proof fn lemma_device_at(store: Store, i: int)
    requires
        store.wf(),
        0 <= i < store.devices.len(),
    ensures
        store.has_device(store.devices[i].id),
        store.device(store.devices[i].id) == Some(store.devices[i]),
{
    let id = store.devices[i].id;
    let j = choose|j: int| 0 <= j < store.devices.len() && (#[trigger] store.devices[j]).id == id;
    assert(j == i);
}


/// Registering a device leaves every relay with its device.
pub proof fn lemma_anchored_with_device(store: Store, device: DeviceRecord)
    requires
        store.anchored(),
    ensures
        store.with_device(device).anchored(),
{
    let after = store.with_device(device);
    assert forall|k: int| 0 <= k < after.relays.len() implies after.has_device(
        (#[trigger] after.relays[k]).device_id,
    ) by {
        let id = store.relays[k].device_id;
        assert(store.has_device(id));
        let i = choose|i: int| 0 <= i < store.devices.len() && (#[trigger] store.devices[i]).id == id;
        assert(after.devices[i].id == id);
    }
}

/// Replacing what is stored of a device leaves every relay with its device.
pub proof fn lemma_anchored_with_record(store: Store, device: DeviceRecord)
    requires
        store.anchored(),
    ensures
        store.with_record(device).anchored(),
{
    let after = store.with_record(device);
    assert forall|k: int| 0 <= k < store.relays.len() implies after.has_device(
        (#[trigger] store.relays[k]).device_id,
    ) by {
        let owner = store.relays[k].device_id;
        assert(store.has_device(owner));
        let i = choose|i: int|
            0 <= i < store.devices.len() && (#[trigger] store.devices[i]).id == owner;
        assert(after.devices[i].id == owner);
    }
}

/// Setting the flag of a device leaves every relay with its device.
pub proof fn lemma_anchored_with_authorization(store: Store, id: u128, authorized: bool)
    requires
        store.anchored(),
    ensures
        store.with_authorization(id, authorized).anchored(),
{
    let after = store.with_authorization(id, authorized);
    assert forall|k: int| 0 <= k < store.relays.len() implies after.has_device(
        (#[trigger] store.relays[k]).device_id,
    ) by {
        let owner = store.relays[k].device_id;
        assert(store.has_device(owner));
        let i = choose|i: int|
            0 <= i < store.devices.len() && (#[trigger] store.devices[i]).id == owner;
        assert(after.devices[i].id == owner);
    }
}

/// A relay associated with a registered device has its device, and so have
/// the others as before.
pub proof fn lemma_anchored_with_relay(store: Store, id: u128, relay: u8)
    requires
        store.anchored(),
        store.has_device(id),
    ensures
        store.with_relay(id, relay).anchored(),
{
    let after = store.with_relay(id, relay);
    assert forall|k: int| 0 <= k < after.relays.len() implies after.has_device(
        (#[trigger] after.relays[k]).device_id,
    ) by {
        let owner = after.relays[k].device_id;
        if k < store.relays.len() {
            assert(store.has_device(store.relays[k].device_id));
        }
        let i = choose|i: int|
            0 <= i < store.devices.len() && (#[trigger] store.devices[i]).id == owner;
        assert(after.devices[i].id == owner);
    }
}

/// Clearing the relays of a device leaves the other relays with theirs.
pub proof fn lemma_anchored_without_relays(store: Store, id: u128)
    requires
        store.anchored(),
    ensures
        store.without_relays(id).anchored(),
{
    let after = store.without_relays(id);
    assert forall|k: int| 0 <= k < after.relays.len() implies after.has_device(
        (#[trigger] after.relays[k]).device_id,
    ) by {
        let relay = after.relays[k];
        assert(after.relays.contains(relay));
        store.relays.lemma_filter_contains_rev(not_owned_by(id), relay);
        let j = choose|j: int| 0 <= j < store.relays.len() && store.relays[j] == relay;
        let owner = store.relays[j].device_id;
        assert(store.has_device(owner));
        let i = choose|i: int|
            0 <= i < store.devices.len() && (#[trigger] store.devices[i]).id == owner;
        assert(after.devices[i].id == owner);
    }
}

/// Removing a device together with its relays leaves the other relays with
/// their devices.
pub proof fn lemma_anchored_without_device(store: Store, id: u128)
    requires
        store.anchored(),
    ensures
        store.without_device(id).without_relays(id).anchored(),
{
    let after = store.without_device(id).without_relays(id);
    assert forall|k: int| 0 <= k < after.relays.len() implies after.has_device(
        (#[trigger] after.relays[k]).device_id,
    ) by {
        let relay = after.relays[k];
        assert(after.relays == store.relays.filter(not_owned_by(id)));
        assert(after.relays.contains(relay));
        store.relays.lemma_filter_pred(not_owned_by(id), k);
        store.relays.lemma_filter_contains_rev(not_owned_by(id), relay);
        let j = choose|j: int| 0 <= j < store.relays.len() && store.relays[j] == relay;
        let owner = store.relays[j].device_id;
        assert(owner != id);
        assert(store.has_device(owner));
        let i = choose|i: int|
            0 <= i < store.devices.len() && (#[trigger] store.devices[i]).id == owner;
        store.devices.lemma_filter_contains(other_than(id), i);
        let kept = store.devices.filter(other_than(id));
        let m = choose|m: int| 0 <= m < kept.len() && kept[m] == store.devices[i];
        assert(after.devices[m].id == owner);
    }
}

/// A sequence from which `pred` removes nothing is its own filtrate.
pub proof fn lemma_filter_keeps_all<A>(s: Seq<A>, pred: spec_fn(A) -> bool)
    requires
        forall|k: int| 0 <= k < s.len() ==> pred(#[trigger] s[k]),
    ensures
        s.filter(pred) == s,
    decreases s.len(),
{
    reveal(Seq::filter);
    if s.len() > 0 {
        let front = s.drop_last();
        assert forall|k: int| 0 <= k < front.len() implies pred(#[trigger] front[k]) by {
            assert(front[k] == s[k]);
        }
        lemma_filter_keeps_all(front, pred);
        assert(front.push(s.last()) =~= s);
    }
}

/// Where `pred` fails at position `i` alone, filtering removes that position.
proof fn lemma_filter_drops_one<A>(s: Seq<A>, pred: spec_fn(A) -> bool, i: int)
    requires
        0 <= i < s.len(),
        !pred(s[i]),
        forall|k: int| 0 <= k < s.len() && k != i ==> pred(#[trigger] s[k]),
    ensures
        s.filter(pred) == s.remove(i),
    decreases s.len(),
{
    reveal(Seq::filter);
    let front = s.drop_last();
    if i == s.len() - 1 {
        assert forall|k: int| 0 <= k < front.len() implies pred(#[trigger] front[k]) by {
            assert(front[k] == s[k]);
        }
        lemma_filter_keeps_all(front, pred);
        assert(front =~= s.remove(i));
    } else {
        assert forall|k: int| 0 <= k < front.len() && k != i implies pred(
            #[trigger] front[k],
        ) by {
            assert(front[k] == s[k]);
        }
        lemma_filter_drops_one(front, pred, i);
        assert(front.remove(i).push(s.last()) =~= s.remove(i));
    }
}

/// The device that a stored row holds: the identifier in `id_blob`, which
/// must have 16 bytes, the key in the DER bytes `wrapped_pk`, the secret as it
/// stands, and the flag, set where `authorized` is 1.
pub open spec fn row_device(
    id_blob: Seq<u8>,
    wrapped_pk: Seq<u8>,
    secret: Seq<u8>,
    authorized: u8,
) -> Result<DeviceRecord, ICTError> {
    if id_blob.len() != 16 {
        Err(ICTError::InvalidIdentifier)
    } else {
        match public_key_of_der(wrapped_pk) {
            None => Err(ICTError::InvalidKey),
            Some(public_key) => Ok(
                DeviceRecord {
                    id: be_value(id_blob) as u128,
                    public_key,
                    secret,
                    authorized: authorized == 1,
                },
            ),
        }
    }
}

impl Device {
    /// The device that a stored row holds. Fails with `InvalidIdentifier`
    /// where `id_blob` has not 16 bytes, else with `InvalidKey` where
    /// `wrapped_pk` holds no RSA public key.
    pub fn new(id_blob: &Vec<u8>, wrapped_pk: &Vec<u8>, secret: &Vec<u8>, authorized: u8) -> (r:
        Result<Device, ICTError>)
        ensures
            match r {
                Ok(device) => row_device(id_blob@, wrapped_pk@, secret@, authorized) == Ok::<
                    DeviceRecord,
                    ICTError,
                >(device@),
                Err(e) => row_device(id_blob@, wrapped_pk@, secret@, authorized) == Err::<
                    DeviceRecord,
                    ICTError,
                >(e),
            },
    {
        match id_from_blob(id_blob) {
            None => Err(ICTError::InvalidIdentifier),
            Some(id) => match public_key_from_der(wrapped_pk) {
                Err(_) => Err(ICTError::InvalidKey),
                Ok(key) => Ok(
                    Device {
                        id,
                        wrapped_pk: key,
                        totp_secret: secret.clone(),
                        authorized: authorized == 1,
                    },
                ),
            },
        }
    }

    /// A device with the same identifier, key, secret and flag.
    pub fn duplicate(&self) -> (copy: Device)
        ensures
            copy@ == self@,
    {
        Device {
            id: self.id,
            wrapped_pk: self.wrapped_pk.clone(),
            totp_secret: self.totp_secret.clone(),
            authorized: self.authorized,
        }
    }
}

/// The two tables behind a [`Db`]: the devices and the relay associations.
///
/// Only the store's own operations reach inside, so no two devices in it ever
/// share an identifier.
pub struct Tables {
    devices: Vec<Device>,
    relays: Vec<Relay>,
}

impl View for Tables {
    type V = Store;

    closed spec fn view(&self) -> Store {
        Store { devices: self.devices@.map_values(|d: Device| d@), relays: self.relays@ }
    }
}

/// No two of `devices` share an identifier.
spec fn distinct(devices: Seq<Device>) -> bool {
    forall|i: int, j: int|
        0 <= i < j < devices.len() ==> (#[trigger] devices[i]).id != (#[trigger] devices[j]).id
}

impl Tables {
    #[verifier::type_invariant]
    spec fn sound(&self) -> bool {
        distinct(self.devices@)
    }

    /// Recalls that the tables never hold two devices under one identifier.
    pub(crate) fn recall_wf(&self)
        ensures
            self@.wf(),
    {
        proof {
            use_type_invariant(self);
        }
    }

    /// Hands out both tables and leaves empty ones behind.
    fn take(&mut self) -> (parts: (Vec<Device>, Vec<Relay>))
        ensures
            parts.0 == old(self).devices,
            parts.1 == old(self).relays,
            distinct(parts.0@),
    {
        let mut taken = Tables { devices: Vec::new(), relays: Vec::new() };
        core::mem::swap(self, &mut taken);
        proof {
            use_type_invariant(&taken);
        }
        let Tables { devices, relays } = taken;
        (devices, relays)
    }

    /// Installs `devices` and `relays` as the two tables.
    fn put(&mut self, devices: Vec<Device>, relays: Vec<Relay>)
        requires
            distinct(devices@),
        ensures
            final(self).devices == devices,
            final(self).relays == relays,
    {
        *self = Tables { devices, relays };
    }
}

/// The device store.
///
/// It holds the device records and the relay associations in memory, in the
/// order in which they were added, and never two records with one identifier.
pub struct Db {
    /// Where the contents are kept between runs; `None` for a store that
    /// lives in memory only.
    pub path: Option<String>,
    /// The configured hash variant of the one-time codes: `sha1`, `sha512`,
    /// or anything else for SHA-256.
    pub totp_sha: String,
    /// The records themselves.
    pub tables: Tables,
}

impl View for Db {
    type V = Store;

    open spec fn view(&self) -> Store {
        self.tables@
    }
}

impl Db {
    /// A store for `db_path`, or one that lives in memory only.
    pub fn newg(db_path: Option<String>) -> (r: Result<Self, ICTError>)
        ensures
            r matches Ok(db) && db@ == Store::empty() && db.totp_sha@ == "sha256"@ && (
            match db_path {
                Some(p) => db.path matches Some(q) && q@ == p@,
                None => db.path is None,
            }),
    {
        match db_path {
            Some(path) => Self::new(path.as_str()),
            None => Self::new_test_db(),
        }
    }

    /// An empty store whose contents belong at `db_path`.
    pub fn new(db_path: &str) -> (r: Result<Self, ICTError>)
        ensures
            r matches Ok(db) && db@ == Store::empty() && db.totp_sha@ == "sha256"@ && (
            db.path matches Some(p) && p@ == db_path@),
    {
        let tables = Tables { devices: Vec::new(), relays: Vec::new() };
        let db = Db { path: Some(db_path.to_owned()), totp_sha: "sha256".to_owned(), tables };
        assert(db@.devices =~= Seq::empty());
        Ok(db)
    }

    /// An empty store that lives in memory only.
    pub fn new_test_db() -> (r: Result<Self, ICTError>)
        ensures
            r matches Ok(db) && db@ == Store::empty() && db.path is None && db.totp_sha@
                == "sha256"@,
    {
        let tables = Tables { devices: Vec::new(), relays: Vec::new() };
        let db = Db { path: None, totp_sha: "sha256".to_owned(), tables };
        assert(db@.devices =~= Seq::empty());
        Ok(db)
    }

    /// The position of the record of `id`, if there is one.
    fn position(&self, id: u128) -> (r: Option<usize>)
        ensures
            self@.wf(),
            match r {
                Some(i) => i < self.tables.devices@.len() && self.tables.devices@[i as int].id
                    == id && self@.device(id) == Some(self@.devices[i as int]),
                None => !self@.has_device(id) && (forall|k: int|
                    0 <= k < self.tables.devices@.len() ==> (
                    #[trigger] self.tables.devices@[k]).id != id),
            },
    {
        proof {
            use_type_invariant(&self.tables);
        }
        let n: usize = self.tables.devices.len();
        let mut i: usize = 0;
        while i < n
            invariant
                i <= n,
                n == self.tables.devices@.len(),
                self@.wf(),
                forall|k: int| 0 <= k < i ==> (#[trigger] self.tables.devices@[k]).id != id,
            decreases n - i,
        {
            if self.tables.devices[i].id == id {
                proof {
                    assert(self@.devices[i as int].id == id);
                    lemma_device_at(self@, i as int);
                }
                return Some(i);
            }
            i += 1;
        }
        proof {
            assert forall|k: int| 0 <= k < self@.devices.len() implies (
            #[trigger] self@.devices[k]).id != id by {
                assert(self.tables.devices@[k].id != id);
            }
        }
        None
    }

    /// Adds `device` to the store. Fails with `Conflict`, and changes
    /// nothing, when its identifier is already registered.
    pub fn add_device(&mut self, device: &Device) -> (r: Result<(), ICTError>)
        ensures
            final(self)@.wf(),
            final(self).path == old(self).path,
            final(self).totp_sha == old(self).totp_sha,
            old(self)@.anchored() ==> final(self)@.anchored(),
            old(self)@.has_device(device.id) ==> r == Err::<(), ICTError>(ICTError::Conflict)
                && final(self)@ == old(self)@,
            !old(self)@.has_device(device.id) ==> r == Ok::<(), ICTError>(()) && final(self)@
                == old(self)@.with_device(device@),
    {
        match self.position(device.id) {
            Some(_) => Err(ICTError::Conflict),
            None => {
                let (mut devices, relays) = self.tables.take();
                devices.push(device.duplicate());
                self.tables.put(devices, relays);
                proof {
                    use_type_invariant(&self.tables);
                    assert(self@.devices =~= old(self)@.devices.push(device@));
                    if old(self)@.anchored() {
                        lemma_anchored_with_device(old(self)@, device@);
                    }
                }
                Ok(())
            },
        }
    }

    /// Associates `relay_id` with the device `device_id`, after the relays it
    /// already has. Fails with `NotFound`, and changes nothing, when no such
    /// device is registered.
    pub fn add_relay(&mut self, device_id: u128, relay_id: u8) -> (r: Result<(), ICTError>)
        ensures
            final(self)@.wf(),
            final(self).path == old(self).path,
            final(self).totp_sha == old(self).totp_sha,
            old(self)@.anchored() ==> final(self)@.anchored(),
            !old(self)@.has_device(device_id) ==> r == Err::<(), ICTError>(ICTError::NotFound)
                && final(self)@ == old(self)@,
            old(self)@.has_device(device_id) ==> r == Ok::<(), ICTError>(()) && final(self)@
                == old(self)@.with_relay(device_id, relay_id),
    {
        match self.position(device_id) {
            None => Err(ICTError::NotFound),
            Some(_) => {
                let (devices, mut relays) = self.tables.take();
                relays.push(Relay { device_id, relay_id });
                self.tables.put(devices, relays);
                proof {
                    use_type_invariant(&self.tables);
                    if old(self)@.anchored() {
                        lemma_anchored_with_relay(old(self)@, device_id, relay_id);
                    }
                }
                Ok(())
            },
        }
    }

    /// The device registered under `id`, or `None`.
    pub fn get_device(&self, id: u128) -> (r: Result<Option<Device>, ICTError>)
        ensures
            self@.wf(),
            match r {
                Ok(Some(device)) => self@.device(id) == Some(device@),
                Ok(None) => self@.device(id) is None,
                Err(_) => false,
            },
    {
        match self.position(id) {
            Some(i) => {
                let device = self.tables.devices[i].duplicate();
                Ok(Some(device))
            },
            None => Ok(None),
        }
    }

    /// Every registered device, in the order of registration.
    pub fn get_devices(&self) -> (r: Result<Vec<Device>, ICTError>)
        ensures
            self@.wf(),
            r matches Ok(devices) && devices@.map_values(|d: Device| d@) == self@.devices,
    {
        proof {
            use_type_invariant(&self.tables);
        }
        let n: usize = self.tables.devices.len();
        let mut devices: Vec<Device> = Vec::new();
        let mut i: usize = 0;
        while i < n
            invariant
                i <= n,
                n == self.tables.devices@.len(),
                devices@.len() == i,
                forall|k: int| 0 <= k < i ==> (#[trigger] devices@[k])@ == self.tables.devices@[k]@,
            decreases n - i,
        {
            devices.push(self.tables.devices[i].duplicate());
            i += 1;
        }
        proof {
            assert(devices@.map_values(|d: Device| d@) =~= self@.devices);
        }
        Ok(devices)
    }

    /// The relays of `device_id`, in the order in which they were associated.
    pub fn get_relays(&self, device_id: u128) -> (r: Result<Vec<u8>, ICTError>)
        ensures
            self@.wf(),
            r matches Ok(relays) && relays@ == self@.relays_of(device_id),
    {
        proof {
            use_type_invariant(&self.tables);
        }
        let n: usize = self.tables.relays.len();
        let mut found: Vec<u8> = Vec::new();
        let mut i: usize = 0;
        proof {
            reveal(Seq::filter);
            assert(relay_ids(self.tables.relays@.take(0), device_id) =~= Seq::empty());
        }
        while i < n
            invariant
                i <= n,
                n == self.tables.relays@.len(),
                found@ == relay_ids(self.tables.relays@.take(i as int), device_id),
            decreases n - i,
        {
            let relay = self.tables.relays[i];
            proof {
                let seen = self.tables.relays@.take(i as int);
                assert(self.tables.relays@.take(i + 1) =~= seen.push(relay));
                lemma_relay_ids_push(seen, relay, device_id);
            }
            if relay.device_id == device_id {
                found.push(relay.relay_id);
            }
            i += 1;
        }
        proof {
            assert(self.tables.relays@.take(n as int) =~= self.tables.relays@);
        }
        Ok(found)
    }

    /// Replaces the key, the secret and the flag of the device that has
    /// `device`'s identifier. Changes nothing when there is none.
    pub fn update_device(&mut self, device: &Device) -> (r: Result<(), ICTError>)
        ensures
            final(self)@.wf(),
            final(self).path == old(self).path,
            final(self).totp_sha == old(self).totp_sha,
            old(self)@.anchored() ==> final(self)@.anchored(),
            r == Ok::<(), ICTError>(()),
            final(self)@ == old(self)@.with_record(device@),
    {
        proof {
            if self@.anchored() {
                lemma_anchored_with_record(self@, device@);
            }
        }
        match self.position(device.id) {
            Some(i) => {
                let (mut devices, relays) = self.tables.take();
                devices.set(i, device.duplicate());
                self.tables.put(devices, relays);
                proof {
                    use_type_invariant(&self.tables);
                    assert(self@.devices =~= old(self)@.with_record(device@).devices);
                }
            },
            None => {
                proof {
                    assert(self@.devices =~= old(self)@.with_record(device@).devices);
                }
            },
        }
        Ok(())
    }

    /// Sets the authorization flag of the device `id`. Fails with
    /// `NotFound`, and changes nothing, when no such device is registered.
    pub fn set_authorization_on_device(&mut self, id: u128, auth: bool) -> (r: Result<
        (),
        ICTError,
    >)
        ensures
            final(self)@.wf(),
            final(self).path == old(self).path,
            final(self).totp_sha == old(self).totp_sha,
            old(self)@.anchored() ==> final(self)@.anchored(),
            !old(self)@.has_device(id) ==> r == Err::<(), ICTError>(ICTError::NotFound)
                && final(self)@ == old(self)@,
            old(self)@.has_device(id) ==> r == Ok::<(), ICTError>(()) && final(self)@ == old(
                self,
            )@.with_authorization(id, auth),
    {
        proof {
            if self@.anchored() {
                lemma_anchored_with_authorization(self@, id, auth);
            }
        }
        match self.position(id) {
            None => Err(ICTError::NotFound),
            Some(i) => {
                let (mut devices, relays) = self.tables.take();
                let mut updated = devices[i].duplicate();
                updated.authorized = auth;
                devices.set(i, updated);
                self.tables.put(devices, relays);
                proof {
                    use_type_invariant(&self.tables);
                    assert(self@.devices =~= old(self)@.with_authorization(id, auth).devices);
                }
                Ok(())
            },
        }
    }

    /// Removes the device `id`, if it is registered. Its relay associations
    /// stay: removing them is the caller's part.
    pub fn delete_device(&mut self, id: u128) -> (r: Result<(), ICTError>)
        ensures
            final(self)@.wf(),
            final(self).path == old(self).path,
            final(self).totp_sha == old(self).totp_sha,
            r == Ok::<(), ICTError>(()),
            final(self)@ == old(self)@.without_device(id),
    {
        match self.position(id) {
            Some(i) => {
                proof {
                    lemma_filter_drops_one(self@.devices, other_than(id), i as int);
                }
                let (mut devices, relays) = self.tables.take();
                let _ = devices.remove(i);
                self.tables.put(devices, relays);
                proof {
                    use_type_invariant(&self.tables);
                    assert(self@.devices =~= old(self)@.devices.remove(i as int));
                }
            },
            None => {
                proof {
                    lemma_filter_keeps_all(self@.devices, other_than(id));
                }
            },
        }
        Ok(())
    }

    /// Removes every relay association of `device_id`.
    pub fn remove_relays(&mut self, device_id: u128) -> (r: Result<(), ICTError>)
        ensures
            final(self)@.wf(),
            final(self).path == old(self).path,
            final(self).totp_sha == old(self).totp_sha,
            old(self)@.anchored() ==> final(self)@.anchored(),
            r == Ok::<(), ICTError>(()),
            final(self)@ == old(self)@.without_relays(device_id),
    {
        let n: usize = self.tables.relays.len();
        let mut kept: Vec<Relay> = Vec::new();
        let mut i: usize = 0;
        proof {
            reveal(Seq::filter);
            assert(self.tables.relays@.take(0).filter(not_owned_by(device_id)) =~= Seq::empty());
        }
        while i < n
            invariant
                i <= n,
                n == self.tables.relays@.len(),
                *self == *old(self),
                kept@ == self.tables.relays@.take(i as int).filter(not_owned_by(device_id)),
            decreases n - i,
        {
            let relay = self.tables.relays[i];
            proof {
                let seen = self.tables.relays@.take(i as int);
                assert(self.tables.relays@.take(i + 1) =~= seen.push(relay));
                seen.lemma_filter_push(relay, not_owned_by(device_id));
            }
            if relay.device_id != device_id {
                kept.push(relay);
            }
            i += 1;
        }
        proof {
            assert(self.tables.relays@.take(n as int) =~= self.tables.relays@);
        }
        let (devices, _) = self.tables.take();
        self.tables.put(devices, kept);
        proof {
            use_type_invariant(&self.tables);
            if old(self)@.anchored() {
                lemma_anchored_without_relays(old(self)@, device_id);
            }
        }
        Ok(())
    }

    /// How many devices are registered. Fails with `Storage` when the number
    /// does not fit in 32 bits.
    pub fn count_devices(&self) -> (r: Result<u32, ICTError>)
        ensures
            self@.wf(),
            match r {
                Ok(count) => count == self@.devices.len(),
                Err(e) => self@.devices.len() > u32::MAX && e is Storage,
            },
    {
        proof {
            use_type_invariant(&self.tables);
        }
        let n: usize = self.tables.devices.len();
        if n <= 0xffff_ffff {
            Ok(n as u32)
        } else {
            Err(ICTError::Storage("device count out of range".to_owned()))
        }
    }
}

} // verus!
