//! The contract deployed on each community's discussions account
//! (`discussions.<handle>.community.<hub>`): it lets the hub write to the
//! discussions' social-database data, and lets the hub delete the account.
use crate::account::{parent_account_id, parent_account_of, AccountId};
use crate::community_contract::{grandparent_account, hub_of_community, hub_write_grant, write_grant, AccountDeletion, WritePermission};
use crate::contract::Env;
use vstd::prelude::*;

verus! {

pub struct Contract {}

/// Why a discussions account contract refused a call.
#[derive(Debug, Clone, Copy, PartialEq, Eq, Structural)]
pub enum DiscussionsError {
    /// "Discussions contract should be deployed on a child account"
    DiscussionsNotChildAccount,
    /// "Community contract should be deployed on a child account"
    CommunityNotChildAccount,
    /// "Community factory should be deployed on a child account"
    FactoryNotChildAccount,
    /// "Can only destroy community account from DevHub contract"
    OnlyDevHub,
}

/// The hub account of a discussions account: three levels up.
pub open spec fn hub_of_discussions(current: Seq<char>) -> Result<Seq<char>, DiscussionsError> {
    match parent_account_of(current) {
        None => Err(DiscussionsError::DiscussionsNotChildAccount),
        Some(community) => match hub_of_community(community) {
            Err(crate::community_contract::CommunityAccountError::CommunityNotChildAccount) => Err(
                DiscussionsError::CommunityNotChildAccount,
            ),
            Err(_) => Err(DiscussionsError::FactoryNotChildAccount),
            Ok(hub) => Ok(hub),
        },
    }
}

fn hub_account(current: &str) -> (r: Result<AccountId, DiscussionsError>)
    ensures
        match r {
            Ok(h) => hub_of_discussions(current@) == Ok::<Seq<char>, DiscussionsError>(h@),
            Err(e) => hub_of_discussions(current@) == Err::<Seq<char>, DiscussionsError>(e),
        },
{
    let community = match parent_account_id(current) {
        Some(p) => p,
        None => {
            return Err(DiscussionsError::DiscussionsNotChildAccount);
        },
    };
    match grandparent_account(community.as_str()) {
        Ok(hub) => Ok(hub),
        Err(crate::community_contract::CommunityAccountError::CommunityNotChildAccount) => Err(
            DiscussionsError::CommunityNotChildAccount,
        ),
        Err(_) => Err(DiscussionsError::FactoryNotChildAccount),
    }
}

impl Contract {
    /// A new discussions contract, which lets the hub write to this account's data.
    pub fn new(env: &Env) -> (r: Result<(Contract, WritePermission), DiscussionsError>)
        ensures
            match hub_of_discussions(env.current@) {
                Err(e) => r == Err::<(Contract, WritePermission), DiscussionsError>(e),
                Ok(hub) => r matches Ok((_, w)) && hub_write_grant(w, env.current@, hub),
            },
    {
        let hub = match hub_account(env.current.as_str()) {
            Ok(h) => h,
            Err(e) => {
                return Err(e);
            },
        };
        Ok((Contract {}, write_grant(&env.current, hub)))
    }

    /// Deletes this account in favour of the hub; only the hub may.
    pub fn destroy(&mut self, env: &Env) -> (r: Result<AccountDeletion, DiscussionsError>)
        ensures
            match hub_of_discussions(env.current@) {
                Err(e) => r == Err::<AccountDeletion, DiscussionsError>(e),
                Ok(hub) => if env.predecessor@ == hub {
                    r matches Ok(d) && d.account == env.current && d.beneficiary@ == hub
                } else {
                    r == Err::<AccountDeletion, DiscussionsError>(DiscussionsError::OnlyDevHub)
                },
            },
    {
        let hub = match hub_account(env.current.as_str()) {
            Ok(h) => h,
            Err(e) => {
                return Err(e);
            },
        };
        if env.predecessor != hub {
            return Err(DiscussionsError::OnlyDevHub);
        }
        Ok(AccountDeletion { account: env.current.clone(), beneficiary: hub })
    }
}

} // verus!
