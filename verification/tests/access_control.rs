use devhub::access_control::members::{
    ActionType, Member, MemberMetadata, MembersError, MembersList, VersionedMemberMetadata,
};
use devhub::access_control::rules::{Rule, RuleMetadata, RulesList, VersionedRuleMetadata};
use devhub::assoc::AssocMap;
use std::collections::HashSet;

fn rule_entry(rule: Rule, description: &str) -> (Rule, VersionedRuleMetadata) {
    (rule, RuleMetadata { description: description.to_string() }.into())
}

fn create_rules() -> RulesList {
    RulesList {
        rules: AssocMap {
            entries: vec![
                rule_entry(Rule::ExactMatch("wg-protocol".to_string()), "For Protocol WG only"),
                rule_entry(Rule::ExactMatch("wg-tools".to_string()), "For Tools WG only"),
                rule_entry(Rule::StartsWith("funding".to_string()), "For funding team only"),
                rule_entry(Rule::StartsWith("mnw".to_string()), "For Wallet WG only"),
            ],
        },
    }
}

#[test]
fn rule_serialization() {
    assert_eq!(Rule::ExactMatch("wg-protocol".to_string()).into(), "wg-protocol");
    assert_eq!(Rule::StartsWith("funding".to_string()).into(), "starts-with:funding");
}

#[test]
fn rule_deserialization() {
    assert_eq!(
        Rule::from("wg-protocol".to_string()),
        Rule::ExactMatch("wg-protocol".to_string())
    );
    assert_eq!(
        Rule::from("starts-with:funding".to_string()),
        Rule::StartsWith("funding".to_string())
    );
}

#[test]
fn rule_any_round_trip() {
    assert_eq!(Rule::Any().into(), "*");
    assert_eq!(Rule::from("*".to_string()), Rule::Any());
}

#[test]
fn is_restricted() {
    let list = create_rules();
    assert!(list.is_restricted("wg-protocol"));
    assert!(list.is_restricted("wg-tools"));
    assert!(!list.is_restricted("wg-wallet"));
    assert!(list.is_restricted("funding"));
    assert!(list.is_restricted("fundingfoobar"));
    assert!(list.is_restricted("funding-requested"));
    assert!(!list.is_restricted("nofunding"));
    assert!(list.is_restricted("mnw"));
    assert!(list.is_restricted("mnw-approved"));
    assert!(!list.is_restricted("nomnw"));
}

#[test]
fn find_restricted() {
    let list = create_rules();
    let actual = list.find_restricted(&[
        "wg-protocol".to_string(),
        "wg-tools".to_string(),
        "wg-wallet".to_string(),
        "funding".to_string(),
        "funding".to_string(),
        "fundingfoobar".to_string(),
        "fundingfoobar".to_string(),
        "funding-requested".to_string(),
        "nofunding".to_string(),
        "nofunding".to_string(),
        "mnw".to_string(),
        "mnw-approved".to_string(),
        "nomnw".to_string(),
    ]);
    let actual_set: HashSet<String> = actual.iter().cloned().collect();
    let expected = HashSet::from([
        "wg-protocol".to_string(),
        "wg-tools".to_string(),
        "funding".to_string(),
        "fundingfoobar".to_string(),
        "funding-requested".to_string(),
        "mnw".to_string(),
        "mnw-approved".to_string(),
    ]);
    assert_eq!(actual_set, expected);
    assert_eq!(actual.len(), expected.len());
}

#[test]
fn set_and_unset_restricted() {
    let mut list = RulesList::new();
    list.set_restricted(create_rules());
    assert!(list.is_restricted("funding-requested"));
    list.unset_restricted(vec![Rule::StartsWith("funding".to_string())]);
    assert!(!list.is_restricted("funding-requested"));
    assert!(list.is_restricted("wg-tools"));
}

#[test]
fn member_serialization() {
    assert_eq!(Member::Account("alice.near".to_string()).into(), "alice.near");
    assert_eq!(Member::Team("funding".to_string()).into(), "team:funding");
}

#[test]
fn member_deserialization() {
    assert_eq!(
        Member::from("alice.near".to_string()),
        Some(Member::Account("alice.near".to_string()))
    );
    assert_eq!(
        Member::from("team:funding".to_string()),
        Some(Member::Team("funding".to_string()))
    );
}

#[test]
fn member_parse_refuses_invalid_account() {
    assert_eq!(Member::from("Not An Account".to_string()), None);
}

fn all_rights() -> Vec<ActionType> {
    vec![ActionType::EditPost, ActionType::UseLabels]
}

fn metadata(
    description: &str,
    permissions: Vec<(Rule, Vec<ActionType>)>,
    children: Vec<Member>,
    parents: Vec<Member>,
) -> VersionedMemberMetadata {
    VersionedMemberMetadata::V0(MemberMetadata {
        description: description.to_string(),
        permissions: AssocMap { entries: permissions },
        children,
        parents,
    })
}

fn root_member() -> (Member, VersionedMemberMetadata) {
    (
        Member::Account("devgovgigs.near".to_string()),
        metadata(
            "Main account can do anything",
            vec![
                (Rule::StartsWith("wg-".to_string()), all_rights()),
                (Rule::StartsWith("funding".to_string()), all_rights()),
                (Rule::StartsWith("mnw".to_string()), all_rights()),
            ],
            vec![],
            vec![],
        ),
    )
}

fn moderator_member(name: &str) -> (Member, VersionedMemberMetadata) {
    (
        Member::Account(name.to_string()),
        metadata(
            &format!("{} inherits everything from moderator group.", name),
            vec![],
            vec![],
            vec![Member::Team("moderators".to_string())],
        ),
    )
}

fn moderators() -> (Member, VersionedMemberMetadata) {
    (
        Member::Team("moderators".to_string()),
        metadata(
            "Moderators can do anything except funding posts.",
            vec![
                (Rule::StartsWith("wg-".to_string()), all_rights()),
                (Rule::StartsWith("mnw".to_string()), all_rights()),
            ],
            vec![
                Member::Account("ori.near".to_string()),
                Member::Account("max.near".to_string()),
                Member::Account("vlad.near".to_string()),
            ],
            vec![],
        ),
    )
}

fn create_list() -> MembersList {
    MembersList {
        members: AssocMap {
            entries: vec![
                moderators(),
                root_member(),
                moderator_member("ori.near"),
                moderator_member("max.near"),
                moderator_member("vlad.near"),
            ],
        },
    }
}

/// Everything a members list says, in a form where order does not matter.
fn normalized(list: &MembersList) -> Vec<(String, String, Vec<(String, Vec<ActionType>)>, Vec<String>, Vec<String>)> {
    let mut out = Vec::new();
    for (member, versioned) in list.members.entries.iter() {
        let VersionedMemberMetadata::V0(md) = versioned;
        let mut permissions: Vec<(String, Vec<ActionType>)> = md
            .permissions
            .entries
            .iter()
            .map(|(rule, actions)| {
                let mut a = actions.clone();
                a.sort();
                a.dedup();
                (rule.clone().into(), a)
            })
            .collect();
        permissions.sort();
        let mut children: Vec<String> = md.children.iter().map(|m| m.clone().into()).collect();
        children.sort();
        let mut parents: Vec<String> = md.parents.iter().map(|m| m.clone().into()).collect();
        parents.sort();
        out.push((member.clone().into(), md.description.clone(), permissions, children, parents));
    }
    out.sort();
    out
}

fn action_set(actions: Vec<ActionType>) -> HashSet<ActionType> {
    actions.into_iter().collect()
}

#[test]
fn get_root_members() {
    let list = create_list();
    let root_members: HashSet<Member> = list.get_root_members().into_iter().map(|(m, _)| m).collect();
    assert_eq!(
        root_members,
        HashSet::from([
            Member::Team("moderators".to_string()),
            Member::Account("devgovgigs.near".to_string())
        ])
    );
}

#[test]
fn check_permissions() {
    let list = create_list();
    let actual = list.check_permissions(
        "max.near".to_string(),
        vec!["wg-protocol".to_string(), "funding-requested".to_string()],
    );
    assert_eq!(action_set(actual), HashSet::from([ActionType::EditPost, ActionType::UseLabels]));

    let actual = list.check_permissions("max.near".to_string(), vec!["funding-requested".to_string()]);
    assert!(actual.is_empty());
}

#[test]
fn check_permissions_rules_any() {
    let mut list = create_list();
    let given_permissions = HashSet::from([ActionType::EditPost, ActionType::UseLabels]);
    let added = list.add_member(
        Member::Account("thomasguntenaar.near".to_string()),
        metadata("Account has `Any` rules without labels", vec![(Rule::Any(), all_rights())], vec![], vec![]),
    );
    assert_eq!(added, Ok(()));
    // Without labels
    assert_eq!(
        action_set(list.check_permissions("thomasguntenaar.near".to_string(), vec![])),
        given_permissions,
    );
    // With labels
    assert_eq!(
        action_set(
            list.check_permissions("thomasguntenaar.near".to_string(), vec!["funding-requested".to_string()])
        ),
        given_permissions,
    );
}

#[test]
fn check_permissions_of_not_member() {
    let list = create_list();
    let actual = list.check_permissions(
        "random.near".to_string(),
        vec!["wg-protocol".to_string(), "funding-requested".to_string()],
    );
    assert!(actual.is_empty());
}

#[test]
fn check_permissions_without_labels_grants_nothing_without_any_rule() {
    let list = create_list();
    assert!(list.check_permissions("devgovgigs.near".to_string(), vec![]).is_empty());
}

#[test]
fn add_remove_member() {
    let mut list = create_list();
    let added = list.add_member(
        Member::Account("bob.near".to_string()),
        metadata("", vec![], vec![], vec![Member::Team("moderators".to_string())]),
    );
    assert_eq!(added, Ok(()));
    // The team now lists bob as a child.
    let moderators_md = list
        .members
        .entries
        .iter()
        .find(|(m, _)| *m == Member::Team("moderators".to_string()))
        .map(|(_, md)| match md {
            VersionedMemberMetadata::V0(x) => x.children.clone(),
        })
        .unwrap();
    assert!(moderators_md.contains(&Member::Account("bob.near".to_string())));
    let removed = list.remove_member(&Member::Account("bob.near".to_string()));
    assert_eq!(removed, Ok(()));
    assert_eq!(normalized(&list), normalized(&create_list()));
}

#[test]
fn add_member_errors() {
    let mut list = create_list();
    assert_eq!(
        list.add_member(Member::Account("max.near".to_string()), metadata("", vec![], vec![], vec![])),
        Err(MembersError::MemberAlreadyExists)
    );
    assert_eq!(
        list.add_member(
            Member::Account("bob.near".to_string()),
            metadata("", vec![], vec![], vec![Member::Team("nobody".to_string())])
        ),
        Err(MembersError::ParentNotFound)
    );
    assert_eq!(
        list.add_member(
            Member::Team("leads".to_string()),
            metadata("", vec![], vec![Member::Account("nobody.near".to_string())], vec![])
        ),
        Err(MembersError::ChildNotFound)
    );
    assert_eq!(
        list.add_member(
            Member::Team("leads".to_string()),
            metadata(
                "",
                vec![],
                vec![Member::Account("nobody.near".to_string())],
                vec![Member::Team("nobody".to_string())]
            )
        ),
        Err(MembersError::ChildNotFound)
    );
    assert_eq!(normalized(&list), normalized(&create_list()));
}

#[test]
fn remove_member_not_found() {
    let mut list = create_list();
    assert_eq!(
        list.remove_member(&Member::Account("nobody.near".to_string())),
        Err(MembersError::MemberNotFound)
    );
}

#[test]
fn moderators_of_team() {
    let list = create_list();
    let moderators: HashSet<Member> = list.get_moderators().into_iter().collect();
    assert_eq!(
        moderators,
        HashSet::from([
            Member::Account("ori.near".to_string()),
            Member::Account("max.near".to_string()),
            Member::Account("vlad.near".to_string()),
        ])
    );
}
