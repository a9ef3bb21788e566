use vstd::prelude::*;

use crate::error::ContractError;
use crate::msg::RegistrationResponse;
use cosmwasm_std::Api;
use cosmwasm_std::MemoryStorage;

verus! {

/// The value columns of one stored registration, as a mathematical value:
/// creation time, name, email, address.
pub type RegData = (u64, Seq<char>, Seq<char>, Seq<char>);

#[verifier::external_type_specification]
#[verifier::external_body]
/// The in-memory ordered key-value substrate that backs the record store.
pub struct ExMemoryStorage(MemoryStorage);

/// The registrations held by a storage value: a map from identifier to the
/// stored columns, covering exactly the well-formed entries of the
/// registrations namespace.
pub uninterp spec fn registrations_of(s: MemoryStorage) -> Map<u64, RegData>;

/// The configured owner held by a storage value, if the configuration
/// singleton was written.
pub uninterp spec fn config_owner_of(s: MemoryStorage) -> Option<Seq<char>>;

/// The schema version marker held by a storage value, if one was written:
/// the contract name and its version.
pub uninterp spec fn version_of(s: MemoryStorage) -> Option<(Seq<char>, Seq<char>)>;

/// Whether every entry of a storage value is well formed: every key belongs
/// to one of the ledger's namespaces and every value deserializes to that
/// namespace's type. All storage reached through [`RecordStore`] stays well
/// formed, since all its writes are.
pub uninterp spec fn store_wf(s: MemoryStorage) -> bool;

/// Whether the mock host accepts a string as a well-formed address. The
/// decision depends on the string alone.
pub uninterp spec fn valid_addr(s: Seq<char>) -> bool;

/// The outcome of a schema version upgrade check against a stored marker:
/// `None` when the check refuses (no marker, an unparsable or newer stored
/// version, or a foreign contract name), else `Some` of the marker the check
/// leaves behind.
pub uninterp spec fn migrate_step(
    stored: Option<(Seq<char>, Seq<char>)>,
    name: Seq<char>,
    version: Seq<char>,
) -> Option<(Seq<char>, Seq<char>)>;

/// The registrations of an empty store.
pub open spec fn no_regs() -> Map<u64, RegData> {
    Map::empty()
}

/// A stored registration, immutable once written.
#[derive(Clone, Debug)]
pub struct Registration {
    /// Creation time as unix timestamp (in seconds).
    pub created: u64,
    /// Name of the registration.
    pub name: String,
    /// Email address of the registration.
    pub email: String,
    /// Wallet address of the registration.
    pub address: String,
}

impl View for Registration {
    type V = RegData;

    open spec fn view(&self) -> RegData {
        (self.created, self.name@, self.email@, self.address@)
    }
}

impl Registration {
    /// Pair the stored fields with the identifier that indexes them.
    pub fn into_response(self, id: u64) -> (r: RegistrationResponse)
        ensures
            r.id == id,
            r.created == self.created,
            r.name@ == self.name@,
            r.email@ == self.email@,
            r.address@ == self.address@,
    {
        RegistrationResponse {
            id,
            created: self.created,
            name: self.name,
            email: self.email,
            address: self.address,
        }
    }
}

/// Configuration: a singleton set once at initialization.
#[derive(Clone, Debug)]
pub struct Config {
    /// The address that may add registrations to the log.
    pub owner: String,
}

/// Relies on cosmwasm_std::MemoryStorage::new: a storage with no entries.
#[verifier::external_body]
pub(crate) fn storage_new() -> (s: MemoryStorage)
    ensures
        store_wf(s),
        registrations_of(s) == no_regs(),
        config_owner_of(s) is None,
        version_of(s) is None,
{
    MemoryStorage::new()
}

/// Relies on cw_storage_plus::Map::save: serializes the columns and sets
/// them under the key in the registrations namespace, touching nothing else.
/// Plain integer and string columns always serialize, so the write cannot
/// fail.
#[verifier::external_body]
pub(crate) fn save_registration(s: &mut MemoryStorage, id: u64, reg: &Registration)
    requires
        store_wf(*old(s)),
    ensures
        store_wf(*final(s)),
        registrations_of(*final(s)) == registrations_of(*old(s)).insert(id, reg@),
        config_owner_of(*final(s)) == config_owner_of(*old(s)),
        version_of(*final(s)) == version_of(*old(s)),
{
    let map: cw_storage_plus::Map<u64, (u64, String, String, String)> =
        cw_storage_plus::Map::new("registrations");
    let columns = (reg.created, reg.name.clone(), reg.email.clone(), reg.address.clone());
    map.save(s, id, &columns).unwrap();
}

/// Relies on cw_storage_plus::Map::may_load: returns the deserialized entry
/// stored under the key, or nothing when the key is absent.
#[verifier::external_body]
pub(crate) fn load_registration(s: &MemoryStorage, id: u64) -> (r: Option<
    Registration,
>)
    requires
        store_wf(*s),
    ensures
        match r {
            Some(reg) => registrations_of(*s).contains_key(id) && reg@ == registrations_of(*s)[id],
            None => !registrations_of(*s).contains_key(id),
        },
{
    let map: cw_storage_plus::Map<u64, (u64, String, String, String)> =
        cw_storage_plus::Map::new("registrations");
    match map.may_load(s, id) {
        Ok(Some((created, name, email, address))) => Some(
            Registration { created, name, email, address },
        ),
        _ => None,
    }
}

/// Whether a key lies above the exclusive lower bound of a listing.
pub open spec fn above_bound(start_after: Option<u64>, k: u64) -> bool {
    match start_after {
        None => true,
        Some(b) => k > b,
    }
}

/// Relies on cw_storage_plus::Map::range with an exclusive lower bound in
/// ascending order: the first item is the entry with the least key above the
/// bound, keys being ordered numerically (they are stored big-endian).
#[verifier::external_body]
pub(crate) fn first_registration_after(
    s: &MemoryStorage,
    start_after: Option<u64>,
) -> (r: Option<(u64, Registration)>)
    requires
        store_wf(*s),
    ensures
        match r {
            Some(e) => {
                &&& registrations_of(*s).contains_key(e.0)
                &&& e.1@ == registrations_of(*s)[e.0]
                &&& above_bound(start_after, e.0)
                &&& forall|k: u64|
                    registrations_of(*s).contains_key(k) && above_bound(start_after, k) ==> e.0
                        <= k
            },
            None => forall|k: u64| registrations_of(*s).contains_key(k) ==> !above_bound(
                start_after,
                k,
            ),
        },
{
    let map: cw_storage_plus::Map<u64, (u64, String, String, String)> =
        cw_storage_plus::Map::new("registrations");
    let min = start_after.map(cw_storage_plus::Bound::exclusive);
    match map.range(s, min, None, cosmwasm_std::Order::Ascending).next() {
        Some(Ok((id, (created, name, email, address)))) => Some(
            (id, Registration { created, name, email, address }),
        ),
        _ => None,
    }
}

/// Relies on cw_storage_plus::Map::keys in descending order: the first item
/// is the maximum key, keys being ordered numerically (they are stored
/// big-endian).
#[verifier::external_body]
pub(crate) fn max_registration_key(s: &MemoryStorage) -> (r: Option<u64>)
    requires
        store_wf(*s),
    ensures
        match r {
            Some(id) => registrations_of(*s).contains_key(id) && forall|k: u64|
                registrations_of(*s).contains_key(k) ==> k <= id,
            None => forall|k: u64| !registrations_of(*s).contains_key(k),
        },
{
    let map: cw_storage_plus::Map<u64, (u64, String, String, String)> =
        cw_storage_plus::Map::new("registrations");
    match map.keys(s, None, None, cosmwasm_std::Order::Descending).next() {
        Some(Ok(id)) => Some(id),
        _ => None,
    }
}

/// Relies on cw_storage_plus::Item::save under the configuration key:
/// serializes the owner and sets it, touching nothing else. A plain string
/// always serializes, so the write cannot fail.
#[verifier::external_body]
pub(crate) fn save_config(s: &mut MemoryStorage, cfg: &Config)
    requires
        store_wf(*old(s)),
    ensures
        store_wf(*final(s)),
        config_owner_of(*final(s)) == Some(cfg.owner@),
        registrations_of(*final(s)) == registrations_of(*old(s)),
        version_of(*final(s)) == version_of(*old(s)),
{
    let item: cw_storage_plus::Item<String> = cw_storage_plus::Item::new("config");
    item.save(s, &cfg.owner).unwrap();
}

/// Relies on cw_storage_plus::Item::may_load under the configuration key:
/// returns the stored owner, or nothing when none was written.
#[verifier::external_body]
pub(crate) fn load_config(s: &MemoryStorage) -> (r: Option<Config>)
    requires
        store_wf(*s),
    ensures
        match r {
            Some(cfg) => config_owner_of(*s) == Some(cfg.owner@),
            None => config_owner_of(*s) is None,
        },
{
    let item: cw_storage_plus::Item<String> = cw_storage_plus::Item::new("config");
    match item.may_load(s) {
        Ok(Some(owner)) => Some(Config { owner }),
        _ => None,
    }
}

/// Relies on cw2::set_contract_version: stores the contract name and version
/// marker under its own key, touching nothing else. Its two plain string
/// fields always serialize, so the write cannot fail.
#[verifier::external_body]
pub(crate) fn set_version(s: &mut MemoryStorage, name: &str, version: &str)
    requires
        store_wf(*old(s)),
    ensures
        store_wf(*final(s)),
        version_of(*final(s)) == Some((name@, version@)),
        registrations_of(*final(s)) == registrations_of(*old(s)),
        config_owner_of(*final(s)) == config_owner_of(*old(s)),
{
    cw2::set_contract_version(s, name, version).unwrap();
}

/// Relies on cw2's version marker item: returns the stored contract name and
/// version, or nothing when none was written.
#[verifier::external_body]
pub(crate) fn get_version(s: &MemoryStorage) -> (r: Option<(String, String)>)
    requires
        store_wf(*s),
    ensures
        match r {
            Some(nv) => version_of(*s) == Some((nv.0@, nv.1@)),
            None => version_of(*s) is None,
        },
{
    match cw2::CONTRACT.may_load(s) {
        Ok(Some(cv)) => Some((cv.contract, cv.version)),
        _ => None,
    }
}

/// Relies on cw_utils::ensure_from_older_version: refuses when no marker is
/// stored, when a version does not parse, when the stored name differs, or
/// when the stored version is newer by semver; on success it either updates
/// the marker to the running version or, for a semver-equal stored version,
/// leaves it as it was. It touches nothing but the marker.
#[verifier::external_body]
pub(crate) fn ensure_older_version(
    s: &mut MemoryStorage,
    name: &str,
    version: &str,
) -> (r: Result<(), ContractError>)
    requires
        store_wf(*old(s)),
    ensures
        store_wf(*final(s)),
        registrations_of(*final(s)) == registrations_of(*old(s)),
        config_owner_of(*final(s)) == config_owner_of(*old(s)),
        (r is Ok) <==> (migrate_step(version_of(*old(s)), name@, version@) is Some),
        version_of(*old(s)) is None ==> r is Err,
        r matches Ok(()) ==> version_of(*final(s)) == Some((name@, version@)) || version_of(
            *final(s),
        ) == version_of(*old(s)),
        r matches Err(e) ==> e is Std && version_of(*final(s)) == version_of(*old(s)),
{
    match cw_utils::ensure_from_older_version(s, name, version) {
        Ok(_) => Ok(()),
        Err(_) => Err(ContractError::Std),
    }
}

/// Relies on cosmwasm_std::testing::MockApi::addr_validate: accepts exactly
/// the strings the mock host deems normalized addresses, and returns the
/// accepted input unchanged.
#[verifier::external_body]
pub(crate) fn validate_addr(input: &String) -> (r: Result<String, ContractError>)
    ensures
        (r is Ok) <==> valid_addr(input@),
        r matches Ok(a) ==> a@ == input@,
        r matches Err(e) ==> e is Std,
{
    match cosmwasm_std::testing::MockApi::default().addr_validate(input.as_str()) {
        Ok(a) => Ok(a.into_string()),
        Err(_) => Err(ContractError::Std),
    }
}

/// The durable mapping from identifier to registration, with ordered
/// enumeration. All writes go through its methods, which keep the backing
/// storage well formed.
pub struct RecordStore {
    store: MemoryStorage,
}

impl RecordStore {
    /// The backing storage is well formed.
    pub closed spec fn wf(&self) -> bool {
        store_wf(self.store)
    }

    /// The stored registrations, as a map from identifier to columns.
    pub closed spec fn regs(&self) -> Map<u64, RegData> {
        registrations_of(self.store)
    }

    /// The configured owner, if initialization has happened.
    pub closed spec fn owner(&self) -> Option<Seq<char>> {
        config_owner_of(self.store)
    }

    /// The stored schema version marker, if one was written.
    pub closed spec fn version(&self) -> Option<(Seq<char>, Seq<char>)> {
        version_of(self.store)
    }

    /// A fresh, empty store.
    pub fn new() -> (s: Self)
        ensures
            s.wf(),
            s.regs() == no_regs(),
            s.owner() is None,
            s.version() is None,
    {
        RecordStore { store: storage_new() }
    }

    /// Insert a new entry; refuse to overwrite an existing identifier.
    pub fn put(&mut self, id: u64, reg: Registration) -> (r: Result<(), ContractError>)
        requires
            old(self).wf(),
        ensures
            final(self).wf(),
            final(self).owner() == old(self).owner(),
            final(self).version() == old(self).version(),
            match r {
                Ok(()) => !old(self).regs().contains_key(id) && final(self).regs() == old(self).regs().insert(id, reg@),
                Err(e) => old(self).regs().contains_key(id) && e is DuplicateKey && final(self).regs() == old(self).regs(),
            },
    {
        match load_registration(&self.store, id) {
            Some(_) => Err(ContractError::DuplicateKey),
            None => {
                save_registration(&mut self.store, id, &reg);
                Ok(())
            },
        }
    }

    /// Fetch the entry stored under an identifier.
    pub fn get(&self, id: u64) -> (r: Result<Registration, ContractError>)
        requires
            self.wf(),
        ensures
            match r {
                Ok(reg) => self.regs().contains_key(id) && reg@ == self.regs()[id],
                Err(e) => !self.regs().contains_key(id) && e is NotFound,
            },
    {
        match load_registration(&self.store, id) {
            Some(reg) => Ok(reg),
            None => Err(ContractError::NotFound),
        }
    }

    /// The stored configuration, if initialization has happened.
    pub fn config(&self) -> (r: Option<Config>)
        requires
            self.wf(),
        ensures
            match r {
                Some(cfg) => self.owner() == Some(cfg.owner@),
                None => self.owner() is None,
            },
    {
        load_config(&self.store)
    }

    /// Store the configuration singleton.
    pub fn set_config(&mut self, cfg: &Config)
        requires
            old(self).wf(),
        ensures
            final(self).wf(),
            final(self).owner() == Some(cfg.owner@),
            final(self).regs() == old(self).regs(),
            final(self).version() == old(self).version(),
    {
        save_config(&mut self.store, cfg)
    }

    /// The stored schema version marker, if one was written.
    pub fn stored_version(&self) -> (r: Option<(String, String)>)
        requires
            self.wf(),
        ensures
            match r {
                Some(nv) => self.version() == Some((nv.0@, nv.1@)),
                None => self.version() is None,
            },
    {
        get_version(&self.store)
    }

    /// Store the schema version marker.
    pub fn set_version_info(&mut self, name: &str, version: &str)
        requires
            old(self).wf(),
        ensures
            final(self).wf(),
            final(self).version() == Some((name@, version@)),
            final(self).regs() == old(self).regs(),
            final(self).owner() == old(self).owner(),
    {
        set_version(&mut self.store, name, version)
    }

    /// Check the stored schema version marker against the running version and
    /// update it when the check passes.
    pub fn upgrade_version(&mut self, name: &str, version: &str) -> (r: Result<
        (),
        ContractError,
    >)
        requires
            old(self).wf(),
        ensures
            final(self).wf(),
            final(self).regs() == old(self).regs(),
            final(self).owner() == old(self).owner(),
            (r is Ok) <==> (migrate_step(old(self).version(), name@, version@) is Some),
            old(self).version() is None ==> r is Err,
            r matches Ok(()) ==> final(self).version() == Some((name@, version@)) || final(self).version() == old(self).version(),
            r matches Err(e) ==> e is Std && final(self).version() == old(self).version(),
    {
        ensure_older_version(&mut self.store, name, version)
    }
}

/// Whether one returned row is a stored entry.
pub open spec fn entry_ok(m: Map<u64, RegData>, e: (u64, Registration)) -> bool {
    m.contains_key(e.0) && e.1@ == m[e.0]
}

/// Whether a page of rows holds an entry with the given identifier.
pub open spec fn page_has_key(page: Seq<(u64, Registration)>, k: u64) -> bool {
    exists|i: int| 0 <= i < page.len() && (#[trigger] page[i]).0 == k
}

/// What one bounded scan returns: at most `limit` stored entries in strictly
/// ascending identifier order, all above the bound, with no stored
/// identifier up to the last returned one skipped, and the store exhausted
/// whenever the page is shorter than `limit`.
pub open spec fn page_ok(
    m: Map<u64, RegData>,
    start_after: Option<u64>,
    limit: int,
    page: Seq<(u64, Registration)>,
) -> bool {
    &&& page.len() <= limit
    &&& forall|i: int|
        0 <= i < page.len() ==> entry_ok(m, #[trigger] page[i]) && above_bound(
            start_after,
            page[i].0,
        )
    &&& forall|i: int, j: int|
        #![trigger page[i], page[j]]
        0 <= i < j < page.len() ==> page[i].0 < page[j].0
    &&& forall|k: u64|
        #![trigger m.contains_key(k)]
        m.contains_key(k) && above_bound(start_after, k) && page.len() > 0 && k <= page[page.len()
            - 1].0 ==> page_has_key(page, k)
    &&& page.len() < limit ==> forall|k: u64|
        #![trigger m.contains_key(k)]
        m.contains_key(k) && above_bound(start_after, k) ==> page_has_key(page, k)
}

impl RecordStore {
    /// Enumerate stored entries in strictly ascending identifier order,
    /// starting strictly above the given bound and returning at most `limit`
    /// entries. A page shorter than `limit` signals exhaustion; continuation
    /// is driven by passing the last returned identifier as the next bound.
    pub fn range(&self, start_after: Option<u64>, limit: usize) -> (page: Vec<
        (u64, Registration),
    >)
        requires
            self.wf(),
        ensures
            page_ok(self.regs(), start_after, limit as int, page@),
    {
        let mut page: Vec<(u64, Registration)> = Vec::new();
        let mut cursor: Option<u64> = start_after;
        let mut done = false;
        while !done && page.len() < limit
            invariant
                self.wf(),
                page@.len() <= limit,
                forall|i: int|
                    0 <= i < page@.len() ==> entry_ok(self.regs(), #[trigger] page@[i])
                        && above_bound(start_after, page@[i].0),
                forall|i: int, j: int|
                    #![trigger page@[i], page@[j]]
                    0 <= i < j < page@.len() ==> page@[i].0 < page@[j].0,
                if page@.len() == 0 {
                    cursor == start_after
                } else {
                    cursor == Some(page@[page@.len() - 1].0)
                },
                forall|k: u64|
                    #![trigger self.regs().contains_key(k)]
                    self.regs().contains_key(k) && above_bound(start_after, k) && page@.len() > 0
                        && k <= page@[page@.len() - 1].0 ==> page_has_key(page@, k),
                done ==> forall|k: u64|
                    #![trigger self.regs().contains_key(k)]
                    self.regs().contains_key(k) && above_bound(start_after, k) ==> page_has_key(
                        page@,
                        k,
                    ),
            decreases limit - page@.len() + (if done {
                0int
            } else {
                1int
            }),
        {
            match first_registration_after(&self.store, cursor) {
                None => {
                    proof {
                        assert forall|k: u64|
                            self.regs().contains_key(k) && above_bound(
                                start_after,
                                k,
                            ) implies page_has_key(page@, k) by {
                            assert(registrations_of(self.store).contains_key(k));
                            assert(!above_bound(cursor, k));
                        }
                    }
                    done = true;
                },
                Some(e) => {
                    let id = e.0;
                    let ghost prev = page@;
                    let ghost prev_cursor = cursor;
                    let ghost entry = e;
                    page.push(e);
                    cursor = Some(id);
                    proof {
                        assert(page@ == prev.push(entry));
                        assert(above_bound(start_after, id));
                        assert forall|k: u64|
                            self.regs().contains_key(k) && above_bound(start_after, k) && k
                                <= id implies page_has_key(page@, k) by {
                            if prev.len() > 0 && k <= prev[prev.len() - 1].0 {
                                let i = choose|i: int|
                                    0 <= i < prev.len() && (#[trigger] prev[i]).0 == k;
                                assert((page@[i]).0 == k);
                            } else {
                                assert(above_bound(prev_cursor, k));
                                assert(registrations_of(self.store).contains_key(k));
                                assert(id <= k);
                                assert((page@[page@.len() - 1]).0 == k);
                            }
                        }
                    }
                },
            }
        }
        page
    }
}

/// The last assigned identifier: the maximum stored key, or 0 when nothing
/// is stored.
pub open spec fn last_of(m: Map<u64, RegData>, last: u64) -> bool {
    if exists|k: u64| m.contains_key(k) {
        m.contains_key(last) && forall|k: u64| m.contains_key(k) ==> k <= last
    } else {
        last == 0
    }
}

/// Returns the last recorded registration identifier (the maximum stored
/// key), or 0 when the store is empty.
pub fn last_registration(store: &RecordStore) -> (r: Result<u64, ContractError>)
    requires
        store.wf(),
    ensures
        r matches Ok(last) && last_of(store.regs(), last),
{
    match max_registration_key(&store.store) {
        Some(k) => Ok(k),
        None => Ok(0),
    }
}

/// What the sequencer must return: the successor of the maximum stored
/// identifier, or 1 when nothing is stored.
pub open spec fn next_id_ok(m: Map<u64, RegData>, id: u64) -> bool {
    &&& !m.contains_key(id)
    &&& if exists|k: u64| m.contains_key(k) {
        &&& id >= 1
        &&& m.contains_key((id - 1) as u64)
        &&& forall|k: u64| m.contains_key(k) ==> k < id
    } else {
        id == 1
    }
}

/// Produce the next unique identifier for a new registration: one past the
/// maximum stored key, or 1 for an empty store.
pub fn next_id(store: &RecordStore) -> (id: u64)
    requires
        store.wf(),
        !store.regs().contains_key(u64::MAX),
    ensures
        next_id_ok(store.regs(), id),
{
    match max_registration_key(&store.store) {
        Some(k) => k + 1,
        None => 1,
    }
}

/// Whether the stored identifiers are exactly 1 through `n`.
pub open spec fn ids_dense(m: Map<u64, RegData>, n: u64) -> bool {
    forall|k: u64| #![trigger m.contains_key(k)] m.contains_key(k) <==> 1 <= k && k <= n
}

/// A write on a store holding exactly the identifiers 1 through `n` is
/// assigned the identifier `n + 1`.
pub proof fn lemma_next_id_dense(m: Map<u64, RegData>, n: u64, id: u64)
    requires
        ids_dense(m, n),
        next_id_ok(m, id),
        n < u64::MAX,
    ensures
        id == n + 1,
{
    if n == 0 {
        assert(forall|k: u64| !m.contains_key(k));
        assert(!(exists|k: u64| m.contains_key(k)));
    } else {
        assert(m.contains_key(n));
        assert(n < id);
        assert(m.contains_key((id - 1) as u64));
        assert((id - 1) as u64 <= n);
    }
}

/// Monotonic unique identifiers: starting from an empty store, a chain of
/// successful writes is assigned exactly the identifiers 1, 2, and so on up
/// to its length, in order, with no gap and no repeat. `stores` holds the
/// store model before and after each write, `ids` the assigned identifiers,
/// `vals` the written columns.
#[verifier::rlimit(50)]
pub proof fn lemma_sequential_ids(
    stores: Seq<Map<u64, RegData>>,
    ids: Seq<u64>,
    vals: Seq<RegData>,
)
    requires
        stores.len() == ids.len() + 1,
        vals.len() == ids.len(),
        ids.len() < u64::MAX,
        stores[0] == no_regs(),
        forall|i: int|
            0 <= i < ids.len() ==> next_id_ok(#[trigger] stores[i], ids[i]) && stores[i + 1]
                == stores[i].insert(ids[i], vals[i]),
    ensures
        forall|i: int| 0 <= i < ids.len() ==> ids[i] == i + 1,
        ids_dense(stores[stores.len() - 1], ids.len() as u64),
    decreases ids.len(),
{
    if ids.len() == 0 {
        assert(forall|k: u64| !no_regs().contains_key(k));
        assert(ids_dense(stores[0], 0));
    } else {
        let n = ids.len() - 1;
        let substores = stores.take(n + 1);
        let subids = ids.take(n);
        let subvals = vals.take(n);
        assert(substores[0] == stores[0]);
        assert forall|i: int|
            0 <= i < subids.len() implies next_id_ok(#[trigger] substores[i], subids[i])
            && substores[i + 1] == substores[i].insert(subids[i], subvals[i]) by {
            assert(next_id_ok(stores[i], ids[i]));
            assert(substores[i] == stores[i]);
            assert(substores[i + 1] == stores[i + 1]);
        }
        lemma_sequential_ids(substores, subids, subvals);
        assert(substores[substores.len() - 1] == stores[n]);
        assert(ids_dense(stores[n], n as u64));
        assert(next_id_ok(stores[n], ids[n]));
        lemma_next_id_dense(stores[n], n as u64, ids[n]);
        assert(stores[n + 1] == stores[n].insert(ids[n], vals[n]));
        assert forall|k: u64| #![trigger stores[n + 1].contains_key(k)]
            stores[n + 1].contains_key(k) <==> 1 <= k && k <= ids.len() as u64 by {
            assert(stores[n + 1].contains_key(k) <==> k == ids[n] || stores[n].contains_key(k));
        }
        assert(ids_dense(stores[n + 1], ids.len() as u64));
        assert forall|i: int| 0 <= i < ids.len() implies ids[i] == i + 1 by {
            if i < n {
                assert(subids[i] == ids[i]);
            }
        }
    }
}

/// Immutability: once an identifier holds a record, a write that assigns a
/// fresh identifier leaves that record unchanged.
pub proof fn lemma_record_immutable(m: Map<u64, RegData>, id: u64, new_id: u64, val: RegData)
    requires
        m.contains_key(id),
        next_id_ok(m, new_id),
    ensures
        m.insert(new_id, val).contains_key(id),
        m.insert(new_id, val)[id] == m[id],
{
    assert(new_id != id);
}

/// The seed of one scan in a chain of scans: the original bound for the
/// first, afterwards the last identifier the previous scan returned.
pub open spec fn chain_seed(
    start_after: Option<u64>,
    pages: Seq<Seq<(u64, Registration)>>,
    i: int,
) -> Option<u64> {
    if i == 0 {
        start_after
    } else {
        Some(pages[i - 1][pages[i - 1].len() - 1].0)
    }
}

/// Pagination completeness: successive scans, each seeded with the previous
/// scan's last identifier, all but the last returning a full page and the
/// last a short one, together yield every stored entry above the original
/// bound exactly once, in ascending identifier order across the whole chain.
pub proof fn lemma_pagination_complete(
    m: Map<u64, RegData>,
    start_after: Option<u64>,
    limit: int,
    pages: Seq<Seq<(u64, Registration)>>,
)
    requires
        limit >= 1,
        pages.len() >= 1,
        forall|i: int|
            0 <= i < pages.len() ==> page_ok(
                m,
                chain_seed(start_after, pages, i),
                limit,
                #[trigger] pages[i],
            ),
        forall|i: int| 0 <= i < pages.len() - 1 ==> (#[trigger] pages[i]).len() == limit,
        pages[pages.len() - 1].len() < limit,
    ensures
        forall|i: int, a: int|
            #![trigger pages[i][a]]
            0 <= i < pages.len() && 0 <= a < pages[i].len() ==> entry_ok(m, pages[i][a])
                && above_bound(start_after, pages[i][a].0),
        forall|i: int, a: int, j: int, b: int|
            #![trigger pages[i][a], pages[j][b]]
            0 <= i <= j < pages.len() && 0 <= a < pages[i].len() && 0 <= b < pages[j].len() && (i
                < j || a < b) ==> pages[i][a].0 < pages[j][b].0,
        forall|k: u64|
            #![trigger m.contains_key(k)]
            m.contains_key(k) && above_bound(start_after, k) ==> exists|i: int, a: int|
                0 <= i < pages.len() && 0 <= a < pages[i].len() && (#[trigger] pages[i][a]).0 == k,
    decreases pages.len(),
{
    let first = pages[0];
    if pages.len() == 1 {
        assert forall|k: u64|
            m.contains_key(k) && above_bound(start_after, k) implies exists|i: int, a: int|
            0 <= i < pages.len() && 0 <= a < pages[i].len() && (#[trigger] pages[i][a]).0
                == k by {
            assert(page_has_key(first, k));
            let a = choose|a: int| 0 <= a < first.len() && (#[trigger] first[a]).0 == k;
            assert(0 <= 0 < pages.len() && 0 <= a < pages[0].len() && pages[0][a].0 == k);
        }
    } else {
        assert(first.len() == limit);
        let last0 = first[first.len() - 1].0;
        let seed1 = Some(last0);
        let rest = pages.subrange(1, pages.len() as int);
        assert forall|i: int| 0 <= i < rest.len() implies page_ok(
            m,
            chain_seed(seed1, rest, i),
            limit,
            #[trigger] rest[i],
        ) by {
            assert(rest[i] == pages[i + 1]);
            if i == 0 {
                assert(chain_seed(seed1, rest, 0) == chain_seed(start_after, pages, 1));
            } else {
                assert(rest[i - 1] == pages[i]);
                assert(chain_seed(seed1, rest, i) == chain_seed(start_after, pages, i + 1));
            }
        }
        assert(rest[rest.len() - 1] == pages[pages.len() - 1]);
        assert forall|i: int| 0 <= i < rest.len() - 1 implies (#[trigger] rest[i]).len()
            == limit by {
            assert(rest[i] == pages[i + 1]);
        }
        lemma_pagination_complete(m, seed1, limit, rest);
        assert(above_bound(start_after, last0));
        // every row of a later page lies above the first page's last row
        assert forall|i: int, a: int|
            #![trigger pages[i][a]]
            0 <= i < pages.len() && 0 <= a < pages[i].len() implies entry_ok(m, pages[i][a])
            && above_bound(start_after, pages[i][a].0) by {
            if i >= 1 {
                assert(pages[i][a] == rest[i - 1][a]);
                assert(above_bound(seed1, pages[i][a].0));
            }
        }
        assert forall|i: int, a: int, j: int, b: int|
            #![trigger pages[i][a], pages[j][b]]
            0 <= i <= j < pages.len() && 0 <= a < pages[i].len() && 0 <= b < pages[j].len() && (i
                < j || a < b) implies pages[i][a].0 < pages[j][b].0 by {
            if i == 0 && j == 0 {
            } else if i == 0 && j >= 1 {
                assert(pages[j][b] == rest[j - 1][b]);
                assert(above_bound(seed1, pages[j][b].0));
                assert(pages[i][a].0 <= last0);
            } else {
                assert(pages[i][a] == rest[i - 1][a]);
                assert(pages[j][b] == rest[j - 1][b]);
            }
        }
        assert forall|k: u64|
            m.contains_key(k) && above_bound(start_after, k) implies exists|i: int, a: int|
            0 <= i < pages.len() && 0 <= a < pages[i].len() && (#[trigger] pages[i][a]).0
                == k by {
            if k <= last0 {
                assert(page_has_key(first, k));
                let a = choose|a: int| 0 <= a < first.len() && (#[trigger] first[a]).0 == k;
                assert(0 <= 0 < pages.len() && 0 <= a < pages[0].len() && pages[0][a].0 == k);
            } else {
                assert(above_bound(seed1, k));
                let (i, a): (int, int) = choose|i: int, a: int|
                    0 <= i < rest.len() && 0 <= a < rest[i].len() && (#[trigger] rest[i][a]).0
                        == k;
                assert(pages[i + 1] == rest[i]);
                assert(0 <= i + 1 < pages.len() && 0 <= a < pages[i + 1].len() && pages[i + 1][a].0
                    == k);
            }
        }
    }
}

} // verus!
