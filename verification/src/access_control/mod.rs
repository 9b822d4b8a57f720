//! Who may do what: restricted label rules and the member hierarchy.
pub mod members;
pub mod rules;

use crate::access_control::members::{member_set, moderators_team, MemberView, MembersList};
use crate::access_control::rules::RulesList;
use vstd::prelude::*;

verus! {

pub struct AccessControl {
    pub rules_list: RulesList,
    pub members_list: MembersList,
}

impl AccessControl {
    pub open spec fn wf(&self) -> bool {
        self.rules_list.wf() && self.members_list.wf()
    }

    /// Empty rules and no members.
    pub fn new() -> (r: Self)
        ensures
            r.wf(),
            r.rules_list.view().is_empty(),
            r.members_list.view().is_empty(),
    {
        AccessControl { rules_list: RulesList::new(), members_list: MembersList::new() }
    }
}

/// The direct children of the `moderators` team (none when there is no such team).
pub open spec fn moderators_of(v: Map<MemberView, members::MemberMetadataView>) -> Set<MemberView> {
    if v.dom().contains(moderators_team()) {
        v[moderators_team()].children
    } else {
        Set::empty()
    }
}

/// `account` is a hub moderator: a direct child account of the `moderators` team.
pub open spec fn is_moderator(v: Map<MemberView, members::MemberMetadataView>, account: Seq<char>) -> bool {
    moderators_of(v).contains(MemberView::Account(account))
}

} // verus!
