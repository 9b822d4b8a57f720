//! The community factory contract. It lives on a child account of the hub and
//! creates the account of each new community under its own account.
use crate::account::{is_valid_account_id, parent_account_id, parent_account_of, valid_account_id, AccountId};
use crate::community::discussions_prefix;
use crate::contract::Env;
use crate::notify::{social_db_account_of, social_db_contract};
use vstd::prelude::*;

verus! {

/// The balance that a new community account starts with: 4 NEAR.
pub const COMMUNITY_INITIAL_BALANCE: u128 = 4_000_000_000_000_000_000_000_000u128;

/// The full-access key of the accounts that the factories create.
pub const ACCOUNT_ACCESS_KEY: &'static str = "ed25519:4deBAvg1S4MF7qe9GBDJwDCGLyyXtJa73JnMXwyG9vsB";

/// The gas for the `new` call of a freshly deployed community contract: 50 Tgas.
pub const COMMUNITY_INIT_GAS: u64 = 50_000_000_000_000u64;

pub struct Contract {}

/// Why the factory refused a call.
#[derive(Debug, Clone, Copy, PartialEq, Eq, Structural)]
pub enum FactoryError {
    /// "Community factory should be deployed on a child account"
    NotChildAccount,
    /// "Can only be called from parent contract"
    OnlyParent,
    /// "Require 4 NEAR to create community account"
    InsufficientDeposit,
    /// An account name built from the input is not a valid account id.
    InvalidAccountId,
}

/// A new account with a contract: create it, add the full-access key, fund it
/// with `balance`, deploy the contract and call its `new` with `init_gas`.
pub struct AccountCreation {
    pub account: AccountId,
    pub public_key: String,
    pub balance: u128,
    pub init_gas: u64,
}

/// A write to the social database by which `follower` follows a community
/// account and its discussions account, with the given gas and deposit.
pub struct FollowCommunity {
    pub social_db: AccountId,
    pub follower: AccountId,
    pub community: AccountId,
    pub discussions: AccountId,
    pub static_gas: u64,
    pub deposit: u128,
}

/// The creation of a community account, followed by the factory following it.
pub struct CommunityAccountCreation {
    pub creation: AccountCreation,
    pub follow: FollowCommunity,
}

/// The account `<name>.<parent>`.
pub open spec fn sub_account_of(name: Seq<char>, parent: Seq<char>) -> Seq<char> {
    name + seq!['.'] + parent
}

/// Why following a community account is refused, if it is.
pub open spec fn follow_error(community: Seq<char>) -> Option<FactoryError> {
    if valid_account_id(discussions_prefix() + community) {
        None
    } else {
        Some(FactoryError::InvalidAccountId)
    }
}

/// Why creating the account of community `name` is refused, if it is: the
/// factory must sit on a child account, only its parent (the hub) may call it,
/// with at least the initial balance attached, and the names built must be valid.
pub open spec fn create_error(env: Env, name: Seq<char>) -> Option<FactoryError> {
    match parent_account_of(env.current@) {
        None => Some(FactoryError::NotChildAccount),
        Some(parent) => if env.predecessor@ != parent {
            Some(FactoryError::OnlyParent)
        } else if env.attached_deposit < COMMUNITY_INITIAL_BALANCE {
            Some(FactoryError::InsufficientDeposit)
        } else if !valid_account_id(sub_account_of(name, env.current@)) {
            Some(FactoryError::InvalidAccountId)
        } else {
            follow_error(sub_account_of(name, env.current@))
        },
    }
}

/// The follow write that the factory makes for a community account.
pub open spec fn follow_of(f: FollowCommunity, env: Env, community: Seq<char>) -> bool {
    &&& f.social_db@ == social_db_account_of(env.current@)
    &&& f.follower == env.current
    &&& f.community@ == community
    &&& f.discussions@ == discussions_prefix() + community
    &&& f.static_gas == env.prepaid_gas / 3
    &&& f.deposit == env.attached_deposit
}

fn discussions_account_name(community: &str) -> (r: String)
    ensures
        r@ == discussions_prefix() + community@,
{
    let mut s = String::from_str("discussions.");
    proof {
        reveal_strlit("discussions.");
    }
    s.append(community);
    assert(s@ =~= discussions_prefix() + community@);
    s
}

impl Contract {
    /// Makes the factory follow a community account and its discussions account.
    pub fn subscribe_to_community_accounts(&mut self, env: &Env, community_account_id: AccountId) -> (r: Result<FollowCommunity, FactoryError>)
        ensures
            match follow_error(community_account_id@) {
                Some(e) => r == Err::<FollowCommunity, FactoryError>(e),
                None => r matches Ok(f) && follow_of(f, *env, community_account_id@),
            },
    {
        let discussions = discussions_account_name(community_account_id.as_str());
        if !is_valid_account_id(discussions.as_str()) {
            return Err(FactoryError::InvalidAccountId);
        }
        Ok(FollowCommunity {
            social_db: social_db_contract(env.current.as_str()),
            follower: env.current.clone(),
            community: community_account_id,
            discussions,
            static_gas: env.prepaid_gas / 3,
            deposit: env.attached_deposit,
        })
    }

    /// Creates the account `<community>.<factory account>` with the community
    /// contract, funded with the initial balance, then follows it.
    pub fn create_community_account(&mut self, env: &Env, community: String) -> (r: Result<CommunityAccountCreation, FactoryError>)
        ensures
            match create_error(*env, community@) {
                Some(e) => r == Err::<CommunityAccountCreation, FactoryError>(e),
                None => r matches Ok(c) && {
                    let account = sub_account_of(community@, env.current@);
                    &&& c.creation.account@ == account
                    &&& c.creation.public_key@ == ACCOUNT_ACCESS_KEY@
                    &&& c.creation.balance == COMMUNITY_INITIAL_BALANCE
                    &&& c.creation.init_gas == COMMUNITY_INIT_GAS
                    &&& follow_of(c.follow, *env, account)
                },
            },
    {
        let parent = match parent_account_id(env.current.as_str()) {
            Some(p) => p,
            None => {
                return Err(FactoryError::NotChildAccount);
            },
        };
        if env.predecessor != parent {
            return Err(FactoryError::OnlyParent);
        }
        if env.attached_deposit < COMMUNITY_INITIAL_BALANCE {
            return Err(FactoryError::InsufficientDeposit);
        }
        let ghost name = community@;
        let mut account = community;
        account.append(".");
        proof {
            reveal_strlit(".");
        }
        account.append(env.current.as_str());
        assert(account@ =~= sub_account_of(name, env.current@));
        if !is_valid_account_id(account.as_str()) {
            return Err(FactoryError::InvalidAccountId);
        }
        let follow = match self.subscribe_to_community_accounts(env, account.clone()) {
            Ok(f) => f,
            Err(e) => {
                return Err(e);
            },
        };
        Ok(CommunityAccountCreation {
            creation: AccountCreation {
                account,
                public_key: String::from_str(ACCOUNT_ACCESS_KEY),
                balance: COMMUNITY_INITIAL_BALANCE,
                init_gas: COMMUNITY_INIT_GAS,
            },
            follow,
        })
    }
}

} // verus!
