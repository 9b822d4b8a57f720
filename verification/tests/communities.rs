use devhub::access_control::members::{Member, MemberMetadata, VersionedMemberMetadata};
use devhub::assoc::AssocMap;
use devhub::community::{CommunityAddOn, CommunityError, CommunityInputs};
use devhub::contract::{Contract, ContractError, Env};

fn env(predecessor: &str, deposit: u128) -> Env {
    Env {
        predecessor: predecessor.to_string(),
        current: "devhub.near".to_string(),
        block_timestamp: 0,
        block_height: 42,
        attached_deposit: deposit,
        prepaid_gas: 300_000_000_000_000,
    }
}

fn inputs(handle: &str) -> CommunityInputs {
    CommunityInputs {
        handle: handle.to_string(),
        name: "Gotham".to_string(),
        tag: "some".to_string(),
        description: "This is a test community.".to_string(),
        bio_markdown: Some("This is a sample text about your community".to_string()),
        logo_url: "https://example.com/logo.png".to_string(),
        banner_url: "https://example.com/banner.png".to_string(),
    }
}

const FOUR_NEAR: u128 = 4_000_000_000_000_000_000_000_000;

fn metadata(children: Vec<Member>, parents: Vec<Member>) -> VersionedMemberMetadata {
    VersionedMemberMetadata::V0(MemberMetadata {
        description: String::new(),
        permissions: AssocMap { entries: vec![] },
        children,
        parents,
    })
}

/// A contract with the community `gotham` created by bob and one moderator.
fn setup() -> Contract {
    let mut contract = Contract::new();
    let admin = env("devhub.near", 0);
    assert_eq!(
        contract.add_member(&admin, Member::Team("moderators".to_string()), metadata(vec![], vec![])),
        Ok(())
    );
    assert_eq!(
        contract.add_member(
            &admin,
            Member::Account("mod.near".to_string()),
            metadata(vec![], vec![Member::Team("moderators".to_string())])
        ),
        Ok(())
    );
    let call = contract.create_community(&env("bob.near", FOUR_NEAR), inputs("gotham")).ok().unwrap();
    assert_eq!(call.factory, "community.devhub.near");
    assert_eq!(call.deposit, FOUR_NEAR);
    contract
}

#[test]
fn community_creation_checks_fields() {
    let mut contract = Contract::new();
    assert!(matches!(
        contract.create_community(&env("bob.near", FOUR_NEAR), inputs("Gotham City")),
        Err(ContractError::InvalidCommunity(CommunityError::HandleFormat))
    ));
    let mut bad = inputs("gotham");
    bad.description = "short".to_string();
    assert!(matches!(
        contract.create_community(&env("bob.near", FOUR_NEAR), bad),
        Err(ContractError::InvalidCommunity(CommunityError::DescriptionLength))
    ));
    let mut bad = inputs("gotham");
    bad.handle = "g".to_string();
    assert!(matches!(
        contract.create_community(&env("bob.near", FOUR_NEAR), bad),
        Err(ContractError::InvalidCommunity(CommunityError::HandleLength))
    ));
}

#[test]
fn test_update_community() {
    let mut contract = setup();
    let bob = env("bob.near", 0);
    let mut community = contract.get_community(&"gotham".to_string()).unwrap().deep_clone();
    assert_eq!(community.admins, vec!["bob.near".to_string()]);
    community.name = "Gotham2".to_string();
    let profiles = contract.update_community(&bob, "gotham".to_string(), community).ok().unwrap();
    assert_eq!(profiles.community.account, "gotham.community.devhub.near");
    assert_eq!(profiles.community.name, "Gotham2");
    assert_eq!(contract.get_community(&"gotham".to_string()).unwrap().name, "Gotham2");

    let eve = env("eve.near", 0);
    let community = contract.get_community(&"gotham".to_string()).unwrap().deep_clone();
    assert!(matches!(
        contract.update_community(&eve, "gotham".to_string(), community),
        Err(ContractError::OnlyCommunityAdmins)
    ));
    let mut renamed = contract.get_community(&"gotham".to_string()).unwrap().deep_clone();
    renamed.handle = "gotham2".to_string();
    assert!(matches!(
        contract.update_community(&bob, "gotham".to_string(), renamed),
        Err(ContractError::HandleChanged)
    ));
}

#[test]
fn test_community_addon() {
    let mut contract = setup();
    let bob = env("bob.near", 0);
    let addon = CommunityAddOn {
        id: "unique".to_string(),
        addon_id: "CommunityAddOnId".to_string(),
        display_name: "GitHub".to_string(),
        enabled: true,
        parameters: String::new(),
    };
    assert!(contract.set_community_addons(&bob, "gotham".to_string(), vec![addon]).is_ok());
    let addons = contract.get_community_addons(&"gotham".to_string());
    assert_eq!(addons.len(), 1);
    assert_eq!(addons[0].display_name, "GitHub");

    let renamed = CommunityAddOn {
        id: "unique".to_string(),
        addon_id: "CommunityAddOnId".to_string(),
        display_name: "GitHub repo".to_string(),
        enabled: false,
        parameters: String::new(),
    };
    assert!(contract.set_community_addon(&bob, "gotham".to_string(), renamed).is_ok());
    let addons = contract.get_community_addons(&"gotham".to_string());
    assert_eq!(addons.len(), 1);
    assert_eq!(addons[0].display_name, "GitHub repo");
    assert!(!addons[0].enabled);
}

#[test]
fn test_discussions() {
    let mut contract = setup();
    let bob = env("bob.near", 0);
    let index = contract.create_discussion(&bob, "gotham".to_string(), 1234).ok().unwrap();
    assert_eq!(index.account, "discussions.gotham.community.devhub.near");
    assert_eq!(index.social_db, "social.near");
    assert!(index.repost.contains("\"path\":\"bob.near/post/main\",\"blockHeight\":1234"));
    assert_eq!(
        contract.set_community_socialdb(&bob, "gotham".to_string()).ok().unwrap(),
        "gotham.community.devhub.near"
    );
}

#[test]
fn featured_and_deleted_communities() {
    let mut contract = setup();
    let moderator = env("mod.near", 0);
    let bob = env("bob.near", 0);
    assert!(matches!(
        contract.set_featured_communities(&bob, vec!["gotham".to_string()]),
        Err(ContractError::OnlyModerators)
    ));
    assert!(matches!(
        contract.set_featured_communities(&moderator, vec!["nowhere".to_string()]),
        Err(ContractError::CommunityNotFound)
    ));
    assert!(contract.set_featured_communities(&moderator, vec!["gotham".to_string()]).is_ok());
    assert_eq!(contract.get_featured_communities().len(), 1);
    assert!(matches!(
        contract.delete_community(&bob, "gotham".to_string()),
        Err(ContractError::OnlyModerators)
    ));
    let gone = contract.delete_community(&moderator, "gotham".to_string()).ok().unwrap();
    assert_eq!(gone.account, "gotham.community.devhub.near");
    assert!(contract.get_community(&"gotham".to_string()).is_none());
    assert!(matches!(
        contract.delete_community(&moderator, "gotham".to_string()),
        Err(ContractError::CommunityNotFound)
    ));
}

#[test]
fn community_permissions() {
    let contract = setup();
    let p = contract.get_account_community_permissions("bob.near".to_string(), &"gotham".to_string());
    assert!(p.can_configure);
    assert!(p.can_delete == false);
    let m = contract.get_account_community_permissions("mod.near".to_string(), &"gotham".to_string());
    assert!(m.can_configure);
    assert!(m.can_delete);
}
