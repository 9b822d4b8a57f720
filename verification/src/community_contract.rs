//! The contract deployed on each community's account
//! (`<handle>.community.<hub>`): it lets the hub write to the community's
//! social-database data, creates the community's discussions account, and lets
//! the hub delete the community account.
use crate::account::{is_valid_account_id, parent_account_id, parent_account_of, valid_account_id, AccountId};
use crate::community::discussions_prefix;
use crate::community_factory::{AccountCreation, ACCOUNT_ACCESS_KEY};
use crate::contract::Env;
use crate::notify::{social_db_account_of, social_db_contract};
use vstd::prelude::*;

verus! {

/// The balance that a discussions account starts with: 2 NEAR.
pub const DISCUSSIONS_INITIAL_BALANCE: u128 = 2_000_000_000_000_000_000_000_000u128;

/// The gas for the `new` call of a freshly deployed discussions contract: 20 Tgas.
pub const DISCUSSIONS_INIT_GAS: u64 = 20_000_000_000_000u64;

/// The deposit attached to a grant of write permission: 1 NEAR.
pub const WRITE_PERMISSION_DEPOSIT: u128 = 1_000_000_000_000_000_000_000_000u128;

pub struct Contract {}

/// Why a community account contract refused a call.
#[derive(Debug, Clone, Copy, PartialEq, Eq, Structural)]
pub enum CommunityAccountError {
    /// "Community contract should be deployed on a child account"
    CommunityNotChildAccount,
    /// "Community factory should be deployed on a child account"
    FactoryNotChildAccount,
    /// "Can only destroy community account from DevHub contract"
    OnlyDevHub,
    /// The discussions account name is not a valid account id.
    InvalidAccountId,
}

/// A grant, on the social database, of write permission on `keys` to `grantee`,
/// with the given deposit and all the unused gas.
pub struct WritePermission {
    pub social_db: AccountId,
    pub grantee: AccountId,
    pub keys: Vec<String>,
    pub deposit: u128,
}

/// The deletion of `account`, whose remaining balance goes to `beneficiary`.
pub struct AccountDeletion {
    pub account: AccountId,
    pub beneficiary: AccountId,
}

/// What a new community account does first: let the hub write to its data,
/// then create its discussions account.
pub struct CommunitySetup {
    pub permission: WritePermission,
    pub discussions: AccountCreation,
}

/// The hub account of a community account: the parent of its factory, which
/// is its own parent.
pub open spec fn hub_of_community(current: Seq<char>) -> Result<Seq<char>, CommunityAccountError> {
    match parent_account_of(current) {
        None => Err(CommunityAccountError::CommunityNotChildAccount),
        Some(factory) => match parent_account_of(factory) {
            None => Err(CommunityAccountError::FactoryNotChildAccount),
            Some(hub) => Ok(hub),
        },
    }
}

/// The grant by which an account lets the hub write to its own data.
pub open spec fn hub_write_grant(w: WritePermission, current: Seq<char>, hub: Seq<char>) -> bool {
    &&& w.social_db@ == social_db_account_of(current)
    &&& w.grantee@ == hub
    &&& w.keys@.len() == 1
    &&& w.keys@[0]@ == current
    &&& w.deposit == WRITE_PERMISSION_DEPOSIT
}

/// The creation of the discussions account of the account `current`.
pub open spec fn discussions_creation(c: AccountCreation, current: Seq<char>) -> bool {
    &&& c.account@ == discussions_prefix() + current
    &&& c.public_key@ == ACCOUNT_ACCESS_KEY@
    &&& c.balance == DISCUSSIONS_INITIAL_BALANCE
    &&& c.init_gas == DISCUSSIONS_INIT_GAS
}

/// The hub account above an account that is two levels below it.
pub(crate) fn grandparent_account(current: &str) -> (r: Result<AccountId, CommunityAccountError>)
    ensures
        match r {
            Ok(h) => hub_of_community(current@) == Ok::<Seq<char>, CommunityAccountError>(h@),
            Err(e) => hub_of_community(current@) == Err::<Seq<char>, CommunityAccountError>(e),
        },
{
    let factory = match parent_account_id(current) {
        Some(p) => p,
        None => {
            return Err(CommunityAccountError::CommunityNotChildAccount);
        },
    };
    match parent_account_id(factory.as_str()) {
        Some(hub) => Ok(hub),
        None => Err(CommunityAccountError::FactoryNotChildAccount),
    }
}

/// The grant of write permission on `current`'s data to `hub`.
pub(crate) fn write_grant(current: &AccountId, hub: AccountId) -> (r: WritePermission)
    ensures
        hub_write_grant(r, current@, hub@),
{
    let keys = vec![current.clone()];
    WritePermission {
        social_db: social_db_contract(current.as_str()),
        grantee: hub,
        keys,
        deposit: WRITE_PERMISSION_DEPOSIT,
    }
}

impl Contract {
    /// Creates the account `discussions.<this account>` with the discussions contract.
    pub fn create_discussions_account(&mut self, env: &Env) -> (r: Result<AccountCreation, CommunityAccountError>)
        ensures
            valid_account_id(discussions_prefix() + env.current@) <==> r is Ok,
            r matches Ok(c) ==> discussions_creation(c, env.current@),
            r matches Err(e) ==> e == CommunityAccountError::InvalidAccountId,
    {
        let mut account = String::from_str("discussions.");
        proof {
            reveal_strlit("discussions.");
        }
        account.append(env.current.as_str());
        assert(account@ =~= discussions_prefix() + env.current@);
        if !is_valid_account_id(account.as_str()) {
            return Err(CommunityAccountError::InvalidAccountId);
        }
        Ok(AccountCreation {
            account,
            public_key: String::from_str(ACCOUNT_ACCESS_KEY),
            balance: DISCUSSIONS_INITIAL_BALANCE,
            init_gas: DISCUSSIONS_INIT_GAS,
        })
    }

    /// Lets the hub write to this account's data, then creates the discussions account.
    pub fn new(&mut self, env: &Env) -> (r: Result<CommunitySetup, CommunityAccountError>)
        ensures
            match hub_of_community(env.current@) {
                Err(e) => r == Err::<CommunitySetup, CommunityAccountError>(e),
                Ok(hub) => if valid_account_id(discussions_prefix() + env.current@) {
                    r matches Ok(s) && hub_write_grant(s.permission, env.current@, hub)
                        && discussions_creation(s.discussions, env.current@)
                } else {
                    r == Err::<CommunitySetup, CommunityAccountError>(CommunityAccountError::InvalidAccountId)
                },
            },
    {
        let hub = match grandparent_account(env.current.as_str()) {
            Ok(h) => h,
            Err(e) => {
                return Err(e);
            },
        };
        let permission = write_grant(&env.current, hub);
        match self.create_discussions_account(env) {
            Ok(discussions) => Ok(CommunitySetup { permission, discussions }),
            Err(e) => Err(e),
        }
    }

    /// Deletes this account in favour of the hub; only the hub may.
    pub fn destroy(&mut self, env: &Env) -> (r: Result<AccountDeletion, CommunityAccountError>)
        ensures
            match hub_of_community(env.current@) {
                Err(e) => r == Err::<AccountDeletion, CommunityAccountError>(e),
                Ok(hub) => if env.predecessor@ == hub {
                    r matches Ok(d) && d.account == env.current && d.beneficiary@ == hub
                } else {
                    r == Err::<AccountDeletion, CommunityAccountError>(CommunityAccountError::OnlyDevHub)
                },
            },
    {
        let hub = match grandparent_account(env.current.as_str()) {
            Ok(h) => h,
            Err(e) => {
                return Err(e);
            },
        };
        if env.predecessor != hub {
            return Err(CommunityAccountError::OnlyDevHub);
        }
        Ok(AccountDeletion { account: env.current.clone(), beneficiary: hub })
    }
}

} // verus!
