//! Calls that read and change the access control lists.
use super::{Contract, ContractError, Env};
use crate::access_control::members::{
    after_add, after_remove, can_add, can_remove, metadata_wf, Member, MemberMetadataView, MemberView,
    VersionedMemberMetadata,
};
use crate::access_control::rules::{restricted_labels, rule_applies, strings_view, Rule, RuleView, RulesList};
use crate::access_control::AccessControl;
use vstd::prelude::*;

verus! {

impl Contract {
    pub fn get_access_control_info(&self) -> (r: &AccessControl)
        ensures
            *r == self.access_control,
    {
        &self.access_control
    }

    /// Whether some restricted rule applies to the label.
    pub fn is_restricted_label(&self, label: String) -> (r: bool)
        requires
            self.wf(),
        ensures
            r == exists|rule: RuleView|
                self.access_control.rules_list.view().dom().contains(rule) && rule_applies(rule, label@),
    {
        self.access_control.rules_list.is_restricted(label.as_str())
    }

    /// The given labels that are restricted, each once.
    pub fn find_restricted_labels(&self, labels: Vec<String>) -> (r: Vec<String>)
        requires
            self.wf(),
        ensures
            strings_view(r@).to_set() == restricted_labels(
                self.access_control.rules_list.view(),
                strings_view(labels@),
            ),
            strings_view(r@).no_duplicates(),
    {
        self.access_control.rules_list.find_restricted(labels.as_slice())
    }

    /// Adds or overrides restricted rules; only the contract itself and moderators may.
    pub fn set_restricted_rules(&mut self, env: &Env, rules: RulesList) -> (r: Result<(), ContractError>)
        requires
            old(self).wf(),
            rules.wf(),
        ensures
            final(self).wf(),
            r is Ok <==> old(self).admin_or_moderator(*env),
            r is Err ==> *final(self) == *old(self) && r == Err::<(), ContractError>(ContractError::OnlyModeratorsOrAdmin),
            r is Ok ==> final(self).access_control.rules_list.view() == old(
                self,
            ).access_control.rules_list.view().union_prefer_right(rules.view()),
            r is Ok ==> final(self).access_control.members_list == old(self).access_control.members_list,
    {
        if !(self.has_moderator(env.predecessor.clone()) || env.predecessor == env.current) {
            return Err(ContractError::OnlyModeratorsOrAdmin);
        }
        self.access_control.rules_list.set_restricted(rules);
        Ok(())
    }

    /// Removes restricted rules; only the contract itself and moderators may.
    pub fn unset_restricted_rules(&mut self, env: &Env, rules: Vec<Rule>) -> (r: Result<(), ContractError>)
        requires
            old(self).wf(),
        ensures
            final(self).wf(),
            r is Ok <==> old(self).admin_or_moderator(*env),
            r is Err ==> *final(self) == *old(self) && r == Err::<(), ContractError>(ContractError::OnlyModeratorsOrAdmin),
            r is Ok ==> final(self).access_control.rules_list.view() == old(
                self,
            ).access_control.rules_list.view().remove_keys(
                Set::new(|k: RuleView| rules@.map_values(|x: Rule| x@).contains(k)),
            ),
            r is Ok ==> final(self).access_control.members_list == old(self).access_control.members_list,
    {
        if !(self.has_moderator(env.predecessor.clone()) || env.predecessor == env.current) {
            return Err(ContractError::OnlyModeratorsOrAdmin);
        }
        self.access_control.rules_list.unset_restricted(rules);
        Ok(())
    }

    /// The members that belong to no team, with copies of their metadata.
    pub fn get_root_members(&self) -> (r: Vec<(Member, VersionedMemberMetadata)>)
        requires
            self.wf(),
        ensures
            forall|i: int|
                0 <= i < r@.len() ==> self.access_control.members_list.view().dom().contains((#[trigger] r@[i]).0@)
                    && self.access_control.members_list.view()[r@[i].0@].parents.is_empty()
                    && r@[i].1.view() == self.access_control.members_list.view()[r@[i].0@],
            forall|m: MemberView|
                self.access_control.members_list.view().dom().contains(m)
                    && #[trigger] self.access_control.members_list.view()[m].parents.is_empty() ==> exists|i: int|
                    0 <= i < r@.len() && r@[i].0@ == m,
            forall|i: int, j: int| 0 <= i < j < r@.len() ==> (#[trigger] r@[i]).0@ != (#[trigger] r@[j]).0@,
    {
        self.access_control.members_list.get_root_members()
    }

    /// Adds a member; only the contract itself and moderators may.
    pub fn add_member(&mut self, env: &Env, member: Member, metadata: VersionedMemberMetadata) -> (r: Result<(), ContractError>)
        requires
            old(self).wf(),
            metadata_wf(metadata.inner()),
        ensures
            final(self).wf(),
            !old(self).admin_or_moderator(*env) ==> r == Err::<(), ContractError>(ContractError::OnlyModeratorsOrAdmin),
            r is Ok <==> old(self).admin_or_moderator(*env) && can_add(
                old(self).access_control.members_list.view(),
                member@,
                metadata.view(),
            ),
            r is Ok ==> final(self).access_control.members_list.view() == after_add(
                old(self).access_control.members_list.view(),
                member@,
                metadata.view(),
            ),
            r is Err ==> final(self).access_control.members_list.view() == old(self).access_control.members_list.view(),
            final(self).access_control.rules_list == old(self).access_control.rules_list,
    {
        if !(self.has_moderator(env.predecessor.clone()) || env.predecessor == env.current) {
            return Err(ContractError::OnlyModeratorsOrAdmin);
        }
        match self.access_control.members_list.add_member(member, metadata) {
            Ok(()) => Ok(()),
            Err(e) => Err(ContractError::Members(e)),
        }
    }

    /// Removes a member; only the contract itself and moderators may.
    pub fn remove_member(&mut self, env: &Env, member: &Member) -> (r: Result<(), ContractError>)
        requires
            old(self).wf(),
        ensures
            final(self).wf(),
            !old(self).admin_or_moderator(*env) ==> r == Err::<(), ContractError>(ContractError::OnlyModeratorsOrAdmin),
            r is Ok <==> old(self).admin_or_moderator(*env) && can_remove(
                old(self).access_control.members_list.view(),
                member@,
            ),
            r is Ok ==> final(self).access_control.members_list.view() == after_remove(
                old(self).access_control.members_list.view(),
                member@,
            ),
            r is Err ==> final(self).access_control.members_list.view() == old(self).access_control.members_list.view(),
            final(self).access_control.rules_list == old(self).access_control.rules_list,
    {
        if !(self.has_moderator(env.predecessor.clone()) || env.predecessor == env.current) {
            return Err(ContractError::OnlyModeratorsOrAdmin);
        }
        match self.access_control.members_list.remove_member(member) {
            Ok(()) => Ok(()),
            Err(e) => Err(ContractError::Members(e)),
        }
    }

    /// Replaces a member's metadata; only the contract itself and moderators may.
    pub fn edit_member(&mut self, env: &Env, member: Member, metadata: VersionedMemberMetadata) -> (r: Result<(), ContractError>)
        requires
            old(self).wf(),
            metadata_wf(metadata.inner()),
        ensures
            final(self).wf(),
            !old(self).admin_or_moderator(*env) ==> r == Err::<(), ContractError>(ContractError::OnlyModeratorsOrAdmin),
            r is Ok <==> old(self).admin_or_moderator(*env) && can_remove(
                old(self).access_control.members_list.view(),
                member@,
            ) && can_add(
                after_remove(old(self).access_control.members_list.view(), member@),
                member@,
                metadata.view(),
            ),
            r is Ok ==> final(self).access_control.members_list.view() == after_add(
                after_remove(old(self).access_control.members_list.view(), member@),
                member@,
                metadata.view(),
            ),
            r is Err ==> final(self).access_control.members_list.view() == old(self).access_control.members_list.view(),
            final(self).access_control.rules_list == old(self).access_control.rules_list,
    {
        if !(self.has_moderator(env.predecessor.clone()) || env.predecessor == env.current) {
            return Err(ContractError::OnlyModeratorsOrAdmin);
        }
        match self.access_control.members_list.edit_member(member, metadata) {
            Ok(()) => Ok(()),
            Err(e) => Err(ContractError::Members(e)),
        }
    }
}

} // verus!
