use vstd::prelude::*;

use crate::error::ContractError;
use crate::msg::email_len_ok;
use crate::msg::name_len_ok;
use crate::msg::ExecuteMsg;
use crate::msg::InstantiateMsg;
use crate::msg::ListRegistrationsResponse;
use crate::msg::MessageInfo;
use crate::msg::MigrateMsg;
use crate::msg::RecordMsg;
use crate::msg::RegistrationResponse;
use crate::state::above_bound;
use crate::state::migrate_step;
use crate::state::next_id;
use crate::state::next_id_ok;
use crate::state::page_has_key;
use crate::state::valid_addr;
use crate::state::validate_addr;
use crate::state::Config;
use crate::state::RecordStore;
use crate::state::RegData;
use crate::state::Registration;

verus! {

/// Name under which the schema version marker is stored.
pub const CONTRACT_NAME: &'static str = "crates.io:legends-registration";

/// Version recorded by initialization and required to be newer than the
/// stored marker by migration.
pub const CONTRACT_VERSION: &'static str = "0.1.0";

/// One observable output attribute of a successful operation.
#[derive(Clone, Debug)]
pub struct Attribute {
    /// Attribute key.
    pub key: String,
    /// Attribute value.
    pub value: String,
}

/// The observable outcome of a successful operation: a list of attributes
/// for external auditing, not part of any data contract.
#[derive(Clone, Debug)]
pub struct Response {
    /// Observable output attributes, in the order they were added.
    pub attributes: Vec<Attribute>,
}

impl Response {
    /// A response with no attributes.
    pub fn new() -> (r: Response)
        ensures
            r.attributes@.len() == 0,
    {
        Response { attributes: Vec::new() }
    }

    /// Append one attribute.
    pub fn add_attribute(self, key: &str, value: String) -> (r: Response)
        ensures
            r.attributes@.len() == self.attributes@.len() + 1,
            forall|i: int| 0 <= i < self.attributes@.len() ==> r.attributes@[i]
                == self.attributes@[i],
            r.attributes@[r.attributes@.len() - 1].key@ == key@,
            r.attributes@[r.attributes@.len() - 1].value@ == value@,
    {
        let mut attributes = self.attributes;
        attributes.push(Attribute { key: key.to_owned(), value });
        Response { attributes }
    }
}

/// Everything one write guarantees, over the store models before and after
/// the call: a call carrying funds is refused, a caller other than the owner
/// is refused, an out-of-bounds field is refused with its bounds, and any
/// other call stores the submitted fields under the next identifier and
/// reports the method and name. No failure writes anything.
pub open spec fn record_post(
    pre: RecordStore,
    post: RecordStore,
    now_seconds: u64,
    info: MessageInfo,
    msg: RecordMsg,
    r: Result<Response, ContractError>,
) -> bool {
    &&& post.wf()
    &&& post.owner() == pre.owner()
    &&& post.version() == pre.version()
    &&& info.funds@.len() > 0 ==> (r matches Err(e) && e is PaymentNotAllowed && post.regs()
        == pre.regs())
    &&& info.funds@.len() == 0 && pre.owner() != Some(info.sender@) ==> (r matches Err(e)
        && e is Unauthorized && post.regs() == pre.regs())
    &&& info.funds@.len() == 0 && pre.owner() == Some(info.sender@) && !(name_len_ok(msg.name@)
        && email_len_ok(msg.email@)) ==> {
        &&& post.regs() == pre.regs()
        &&& r matches Err(e) && e matches ContractError::InvalidLength(f, lo, hi) && (if !name_len_ok(
            msg.name@,
        ) {
            f@ == "Title"@ && lo == 4 && hi == 128
        } else {
            f@ == "Body"@ && lo == 20 && hi == 9192
        })
    }
    &&& info.funds@.len() == 0 && pre.owner() == Some(info.sender@) && name_len_ok(msg.name@)
        && email_len_ok(msg.email@) ==> {
        &&& r matches Ok(resp) && resp.attributes@.len() == 2 && resp.attributes@[0].key@
            == "method"@ && resp.attributes@[0].value@ == "record"@ && resp.attributes@[1].key@
            == "name"@ && resp.attributes@[1].value@ == msg.name@
        &&& exists|id: u64|
            #[trigger] next_id_ok(pre.regs(), id) && post.regs() == pre.regs().insert(
                id,
                (now_seconds, msg.name@, msg.email@, msg.address@),
            )
    }
}

/// Admit one new registration: refuse a value transfer, a caller other than
/// the configured owner, and out-of-bounds fields; otherwise assign the next
/// identifier, stamp the record with the caller context's timestamp, and
/// persist it.
pub fn record(
    store: &mut RecordStore,
    now_seconds: u64,
    info: &MessageInfo,
    msg: RecordMsg,
) -> (r: Result<Response, ContractError>)
    requires
        old(store).wf(),
        !old(store).regs().contains_key(u64::MAX),
    ensures
        record_post(*old(store), *final(store), now_seconds, *info, msg, r),
{
    if info.funds.len() > 0 {
        return Err(ContractError::PaymentNotAllowed);
    }
    let authorized = match store.config() {
        Some(cfg) => info.sender == cfg.owner,
        None => false,
    };
    if !authorized {
        return Err(ContractError::Unauthorized);
    }
    if let Err(e) = msg.validate() {
        return Err(e);
    }
    let id = next_id(store);
    let registration = Registration {
        created: now_seconds,
        name: msg.name.clone(),
        email: msg.email,
        address: msg.address,
    };
    match store.put(id, registration) {
        Ok(()) => Ok(
            Response::new().add_attribute("method", "record".to_owned()).add_attribute(
                "name",
                msg.name,
            ),
        ),
        Err(e) => Err(e),
    }
}

/// Exposes all the execute operations available: one, recording a
/// registration.
pub fn execute(
    store: &mut RecordStore,
    now_seconds: u64,
    info: &MessageInfo,
    msg: ExecuteMsg,
) -> (r: Result<Response, ContractError>)
    requires
        old(store).wf(),
        !old(store).regs().contains_key(u64::MAX),
    ensures
        msg matches ExecuteMsg::Record(m) ==> record_post(
            *old(store),
            *final(store),
            now_seconds,
            *info,
            m,
            r,
        ),
{
    match msg {
        ExecuteMsg::Record(m) => record(store, now_seconds, info, m),
    }
}

/// Set up the ledger: refuse a value transfer, validate the owner address
/// with the host, then persist the version marker and the configuration.
pub fn instantiate(store: &mut RecordStore, info: &MessageInfo, msg: InstantiateMsg) -> (r: Result<
    Response,
    ContractError,
>)
    requires
        old(store).wf(),
    ensures
        final(store).wf(),
        final(store).regs() == old(store).regs(),
        info.funds@.len() > 0 ==> (r matches Err(e) && e is PaymentNotAllowed && final(store).owner()
            == old(store).owner() && final(store).version() == old(store).version()),
        info.funds@.len() == 0 && !valid_addr(msg.owner@) ==> (r matches Err(e) && e is Std && final(store).owner() == old(store).owner() && final(store).version() == old(store).version()),
        info.funds@.len() == 0 && valid_addr(msg.owner@) ==> {
            &&& final(store).owner() == Some(msg.owner@)
            &&& final(store).version() == Some((CONTRACT_NAME@, CONTRACT_VERSION@))
            &&& r matches Ok(resp) && resp.attributes@.len() == 2 && resp.attributes@[0].key@
                == "method"@ && resp.attributes@[0].value@ == "instantiate"@
                && resp.attributes@[1].key@ == "owner"@ && resp.attributes@[1].value@ == msg.owner@
        },
{
    if info.funds.len() > 0 {
        return Err(ContractError::PaymentNotAllowed);
    }
    let owner = match validate_addr(&msg.owner) {
        Ok(owner) => owner,
        Err(e) => {
            return Err(e);
        },
    };
    store.set_version_info(CONTRACT_NAME, CONTRACT_VERSION);
    store.set_config(&Config { owner });
    Ok(
        Response::new().add_attribute("method", "instantiate".to_owned()).add_attribute(
            "owner",
            msg.owner,
        ),
    )
}

/// Fetch one registration by identifier, paired with that identifier.
pub fn query_registration(store: &RecordStore, id: u64) -> (r: Result<
    RegistrationResponse,
    ContractError,
>)
    requires
        store.wf(),
    ensures
        match r {
            Ok(resp) => {
                &&& store.regs().contains_key(id)
                &&& resp.id == id
                &&& resp.created == store.regs()[id].0
                &&& resp.name@ == store.regs()[id].1
                &&& resp.email@ == store.regs()[id].2
                &&& resp.address@ == store.regs()[id].3
            },
            Err(e) => !store.regs().contains_key(id) && e is NotFound,
        },
{
    match store.get(id) {
        Ok(reg) => Ok(reg.into_response(id)),
        Err(e) => Err(e),
    }
}

/// Largest number of rows a listing returns.
pub const MAX_LIMIT: u32 = 100;

/// Number of rows a listing returns when the caller names no count.
pub const DEFAULT_LIMIT: u32 = 30;

/// The row count a listing is clamped to: the requested count capped at
/// [`MAX_LIMIT`], or [`DEFAULT_LIMIT`] when none was requested.
pub open spec fn effective_limit(limit: Option<u32>) -> u32 {
    match limit {
        None => DEFAULT_LIMIT,
        Some(l) => if l > MAX_LIMIT {
            MAX_LIMIT
        } else {
            l
        },
    }
}

/// Whether a listed row is a stored entry.
pub open spec fn row_ok(m: Map<u64, RegData>, resp: RegistrationResponse) -> bool {
    &&& m.contains_key(resp.id)
    &&& resp.created == m[resp.id].0
    &&& resp.name@ == m[resp.id].1
    &&& resp.email@ == m[resp.id].2
    &&& resp.address@ == m[resp.id].3
}

/// Whether a listing holds a row with the given identifier.
pub open spec fn listing_has_key(rows: Seq<RegistrationResponse>, k: u64) -> bool {
    exists|i: int| 0 <= i < rows.len() && (#[trigger] rows[i]).id == k
}

/// What a listing returns: at most the clamped count of stored entries in
/// strictly ascending identifier order, all above the bound, with no stored
/// identifier up to the last returned one skipped, and the store exhausted
/// whenever the listing is shorter than the clamped count.
pub open spec fn listing_ok(
    m: Map<u64, RegData>,
    start_after: Option<u64>,
    limit: int,
    rows: Seq<RegistrationResponse>,
) -> bool {
    &&& rows.len() <= limit
    &&& forall|i: int|
        0 <= i < rows.len() ==> row_ok(m, #[trigger] rows[i]) && above_bound(
            start_after,
            rows[i].id,
        )
    &&& forall|i: int, j: int|
        #![trigger rows[i], rows[j]]
        0 <= i < j < rows.len() ==> rows[i].id < rows[j].id
    &&& forall|k: u64|
        #![trigger m.contains_key(k)]
        m.contains_key(k) && above_bound(start_after, k) && rows.len() > 0 && k <= rows[rows.len()
            - 1].id ==> listing_has_key(rows, k)
    &&& rows.len() < limit ==> forall|k: u64|
        #![trigger m.contains_key(k)]
        m.contains_key(k) && above_bound(start_after, k) ==> listing_has_key(rows, k)
}

/// List registrations in ascending identifier order, starting strictly above
/// `start_after`, returning at most `limit` rows clamped to the configured
/// maximum, or the default count when `limit` is omitted.
pub fn list_registrations(
    store: &RecordStore,
    start_after: Option<u64>,
    limit: Option<u32>,
) -> (r: Result<ListRegistrationsResponse, ContractError>)
    requires
        store.wf(),
    ensures
        r matches Ok(resp) && listing_ok(
            store.regs(),
            start_after,
            effective_limit(limit) as int,
            resp.registrations@,
        ),
{
    let lim_rows: u32 = match limit {
        None => DEFAULT_LIMIT,
        Some(l) => if l > MAX_LIMIT {
            MAX_LIMIT
        } else {
            l
        },
    };
    let lim = lim_rows as usize;
    let page = store.range(start_after, lim);
    let mut registrations: Vec<RegistrationResponse> = Vec::new();
    let mut idx: usize = 0;
    while idx < page.len()
        invariant
            idx <= page@.len(),
            registrations@.len() == idx,
            forall|j: int|
                0 <= j < idx ==> (#[trigger] registrations@[j]).id == page@[j].0
                    && registrations@[j].created == page@[j].1@.0 && registrations@[j].name@
                    == page@[j].1@.1 && registrations@[j].email@ == page@[j].1@.2
                    && registrations@[j].address@ == page@[j].1@.3,
        decreases page@.len() - idx,
    {
        let e = &page[idx];
        registrations.push(
            RegistrationResponse {
                id: e.0,
                created: e.1.created,
                name: e.1.name.clone(),
                email: e.1.email.clone(),
                address: e.1.address.clone(),
            },
        );
        idx = idx + 1;
    }
    proof {
        let m = store.regs();
        let rows = registrations@;
        let pg = page@;
        assert forall|k: u64|
            m.contains_key(k) && above_bound(start_after, k) && rows.len() > 0 && k <= rows[rows.len() - 1].id implies listing_has_key(rows, k) by {
            assert(page_has_key(pg, k));
            let i = choose|i: int| 0 <= i < pg.len() && (#[trigger] pg[i]).0 == k;
            assert((rows[i]).id == k);
        }
        if rows.len() < effective_limit(limit) as int {
            assert forall|k: u64|
                m.contains_key(k) && above_bound(start_after, k) implies listing_has_key(
                rows,
                k,
            ) by {
                assert(page_has_key(pg, k));
                let i = choose|i: int| 0 <= i < pg.len() && (#[trigger] pg[i]).0 == k;
                assert((rows[i]).id == k);
            }
        }
    }
    Ok(ListRegistrationsResponse { registrations })
}

/// Migration hook: require the stored schema marker to name this contract
/// and to be strictly older than the running version, else fail; transform
/// no data.
pub fn migrate(store: &mut RecordStore, _msg: MigrateMsg) -> (r: Result<Response, ContractError>)
    requires
        old(store).wf(),
    ensures
        final(store).wf(),
        final(store).regs() == old(store).regs(),
        final(store).owner() == old(store).owner(),
        match r {
            Ok(resp) => {
                &&& old(store).version() matches Some(nv) && nv.1 != CONTRACT_VERSION@
                &&& migrate_step(old(store).version(), CONTRACT_NAME@, CONTRACT_VERSION@) is Some
                &&& final(store).version() == Some((CONTRACT_NAME@, CONTRACT_VERSION@)) || final(store).version() == old(store).version()
                &&& resp.attributes@.len() == 0
            },
            Err(e) => {
                &&& e is Std
                &&& final(store).version() == old(store).version()
                &&& !{
                    &&& old(store).version() matches Some(nv) && nv.1 != CONTRACT_VERSION@
                    &&& migrate_step(
                        old(store).version(),
                        CONTRACT_NAME@,
                        CONTRACT_VERSION@,
                    ) is Some
                }
            },
        },
{
    match store.stored_version() {
        None => Err(ContractError::Std),
        Some(nv) => {
            if nv.1 == CONTRACT_VERSION.to_owned() {
                Err(ContractError::Std)
            } else {
                match store.upgrade_version(CONTRACT_NAME, CONTRACT_VERSION) {
                    Ok(()) => Ok(Response::new()),
                    Err(e) => Err(e),
                }
            }
        },
    }
}


} // verus!
