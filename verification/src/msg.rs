use vstd::prelude::*;

use crate::error::ContractError;
use vstd::string::StrSliceExecFns;

verus! {

/// One coin of the funds attached to a call: a denomination and an amount.
#[derive(Clone, Debug)]
pub struct Coin {
    /// Denomination of the coin.
    pub denom: String,
    /// Amount of the coin.
    pub amount: u128,
}

/// The caller context of a call: the authenticated sender and the funds
/// the call carries.
#[derive(Clone, Debug)]
pub struct MessageInfo {
    /// The authenticated caller identity.
    pub sender: String,
    /// The value transfer attached to the call, empty for plain calls.
    pub funds: Vec<Coin>,
}

/// Initialization message that only sets up an owner.
#[derive(Clone, Debug)]
pub struct InstantiateMsg {
    /// The address that may add registrations to the log.
    pub owner: String,
}

/// Execute message enumeration.
#[derive(Clone, Debug)]
pub enum ExecuteMsg {
    /// Store a registration.
    Record(RecordMsg),
}

/// A registration submitted for recording.
#[derive(Clone, Debug)]
pub struct RecordMsg {
    /// Title of the registration.
    pub name: String,
    /// Email address of the registration.
    pub email: String,
    /// Wallet address of the registration.
    pub address: String,
}

/// Whether a registration name is within its declared bounds,
/// counted in characters.
pub open spec fn name_len_ok(name: Seq<char>) -> bool {
    4 <= name.len() && name.len() <= 128
}

/// Whether a registration email is within its declared bounds,
/// counted in characters.
pub open spec fn email_len_ok(email: Seq<char>) -> bool {
    20 <= email.len()
}

impl RecordMsg {
    /// Sanity check of a received [`RecordMsg`]: the name must hold 4 to 128
    /// characters and the email at least 20, else the offending field is
    /// reported with its bounds.
    pub fn validate(&self) -> (r: Result<(), ContractError>)
        ensures
            match r {
                Ok(()) => name_len_ok(self.name@) && email_len_ok(self.email@),
                Err(e) => {
                    ||| {
                        &&& !name_len_ok(self.name@)
                        &&& e matches ContractError::InvalidLength(f, lo, hi)
                        &&& f@ == "Title"@ && lo == 4 && hi == 128
                    }
                    ||| {
                        &&& name_len_ok(self.name@)
                        &&& !email_len_ok(self.email@)
                        &&& e matches ContractError::InvalidLength(f, lo, hi)
                        &&& f@ == "Body"@ && lo == 20 && hi == 9192
                    }
                },
            },
    {
        let name_len = self.name.as_str().unicode_len();
        if name_len < 4 || name_len > 128 {
            return Err(ContractError::InvalidLength("Title", 4, 128));
        }
        let email_len = self.email.as_str().unicode_len();
        if email_len < 20 {
            return Err(ContractError::InvalidLength("Body", 20, 9192));
        }
        Ok(())
    }
}

/// Query input message enumeration.
#[derive(Clone, Debug)]
pub enum QueryMsg {
    /// Query for a specific registration by its identifier.
    Registration {
        /// Registration identifier.
        id: u64,
    },
    /// Query registrations in ascending identifier order, with pagination.
    ListRegistrations {
        /// Exclusive lower bound: only identifiers above it are returned.
        start_after: Option<u64>,
        /// How many rows to return at most; clamped to a configured maximum.
        limit: Option<u32>,
    },
}

/// A stored registration together with its identifier.
#[derive(Clone, Debug)]
pub struct RegistrationResponse {
    /// Registration identifier.
    pub id: u64,
    /// Creation time as unix timestamp (in seconds).
    pub created: u64,
    /// Title of the registration.
    pub name: String,
    /// Email address of the registration.
    pub email: String,
    /// Wallet address of the registration.
    pub address: String,
}

impl PartialEq for RegistrationResponse {
    fn eq(&self, other: &Self) -> (r: bool) {
        self.id == other.id && self.created == other.created && self.name == other.name
            && self.email == other.email && self.address == other.address
    }
}

impl vstd::std_specs::cmp::PartialEqSpecImpl for RegistrationResponse {
    open spec fn obeys_eq_spec() -> bool {
        true
    }

    open spec fn eq_spec(&self, other: &Self) -> bool {
        &&& self.id == other.id
        &&& self.created == other.created
        &&& self.name@ == other.name@
        &&& self.email@ == other.email@
        &&& self.address@ == other.address@
    }
}

/// The rows a listing query returns.
#[derive(Clone, Debug)]
pub struct ListRegistrationsResponse {
    /// Registrations in ascending identifier order.
    pub registrations: Vec<RegistrationResponse>,
}

/// Message that is passed during migration.
#[derive(Clone, Debug)]
pub struct MigrateMsg {}

} // verus!
