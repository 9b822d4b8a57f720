use devhub::account::parent_account_id;
use devhub::community_contract::{self, CommunityAccountError};
use devhub::community_factory::{self, FactoryError, COMMUNITY_INITIAL_BALANCE};
use devhub::contract::Env;
use devhub::discussions_contract::{self, DiscussionsError};
use devhub::notify::{get_text_mentions, social_db_contract};
use devhub::text::u64_to_decimal;
use devhub::web4::parse_u32;

fn env(predecessor: &str, current: &str, deposit: u128) -> Env {
    Env {
        predecessor: predecessor.to_string(),
        current: current.to_string(),
        block_timestamp: 0,
        block_height: 0,
        attached_deposit: deposit,
        prepaid_gas: 300_000_000_000_000,
    }
}

#[test]
fn parent_accounts() {
    assert_eq!(parent_account_id("gotham.community.devhub.near"), Some("community.devhub.near".to_string()));
    assert_eq!(parent_account_id("devhub.near"), Some("near".to_string()));
    assert_eq!(parent_account_id("near"), None);
}

#[test]
fn factory_creates_community_account() {
    let mut factory = community_factory::Contract {};
    let e = env("devhub.near", "community.devhub.near", COMMUNITY_INITIAL_BALANCE);
    let created = factory.create_community_account(&e, "gotham".to_string()).ok().unwrap();
    assert_eq!(created.creation.account, "gotham.community.devhub.near");
    assert_eq!(created.creation.balance, COMMUNITY_INITIAL_BALANCE);
    assert_eq!(created.creation.init_gas, 50_000_000_000_000);
    assert_eq!(created.creation.public_key, "ed25519:4deBAvg1S4MF7qe9GBDJwDCGLyyXtJa73JnMXwyG9vsB");
    assert_eq!(created.follow.follower, "community.devhub.near");
    assert_eq!(created.follow.community, "gotham.community.devhub.near");
    assert_eq!(created.follow.discussions, "discussions.gotham.community.devhub.near");
    assert_eq!(created.follow.social_db, "social.near");
    assert_eq!(created.follow.static_gas, 100_000_000_000_000);
}

#[test]
fn factory_refusals() {
    let mut factory = community_factory::Contract {};
    let top = env("devhub.near", "factory", COMMUNITY_INITIAL_BALANCE);
    assert!(matches!(
        factory.create_community_account(&top, "gotham".to_string()),
        Err(FactoryError::NotChildAccount)
    ));
    let stranger = env("eve.near", "community.devhub.near", COMMUNITY_INITIAL_BALANCE);
    assert!(matches!(
        factory.create_community_account(&stranger, "gotham".to_string()),
        Err(FactoryError::OnlyParent)
    ));
    let poor = env("devhub.near", "community.devhub.near", COMMUNITY_INITIAL_BALANCE - 1);
    assert!(matches!(
        factory.create_community_account(&poor, "gotham".to_string()),
        Err(FactoryError::InsufficientDeposit)
    ));
    let rich = env("devhub.near", "community.devhub.near", COMMUNITY_INITIAL_BALANCE);
    assert!(matches!(
        factory.create_community_account(&rich, "Not Valid".to_string()),
        Err(FactoryError::InvalidAccountId)
    ));
    // The discussions account of a long community name would exceed 64 characters.
    let long = "a".repeat(31);
    assert!(matches!(
        factory.create_community_account(&rich, long),
        Err(FactoryError::InvalidAccountId)
    ));
}

#[test]
fn community_account_setup_and_destroy() {
    let mut c = community_contract::Contract {};
    let e = env("devhub.near", "gotham.community.devhub.near", 0);
    let setup = c.new(&e).ok().unwrap();
    assert_eq!(setup.permission.grantee, "devhub.near");
    assert_eq!(setup.permission.keys, vec!["gotham.community.devhub.near".to_string()]);
    assert_eq!(setup.permission.deposit, 1_000_000_000_000_000_000_000_000);
    assert_eq!(setup.discussions.account, "discussions.gotham.community.devhub.near");
    assert_eq!(setup.discussions.balance, 2_000_000_000_000_000_000_000_000);
    let gone = c.destroy(&e).ok().unwrap();
    assert_eq!(gone.account, "gotham.community.devhub.near");
    assert_eq!(gone.beneficiary, "devhub.near");
    let stranger = env("eve.near", "gotham.community.devhub.near", 0);
    assert!(matches!(c.destroy(&stranger), Err(CommunityAccountError::OnlyDevHub)));
    let shallow = env("near", "gotham.near", 0);
    assert!(matches!(c.destroy(&shallow), Err(CommunityAccountError::FactoryNotChildAccount)));
    let top = env("near", "gotham", 0);
    assert!(matches!(c.new(&top), Err(CommunityAccountError::CommunityNotChildAccount)));
}

#[test]
fn discussions_account_setup_and_destroy() {
    let e = env("devhub.near", "discussions.gotham.community.devhub.near", 0);
    let (mut d, grant) = discussions_contract::Contract::new(&e).ok().unwrap();
    assert_eq!(grant.grantee, "devhub.near");
    assert_eq!(grant.keys, vec!["discussions.gotham.community.devhub.near".to_string()]);
    let gone = d.destroy(&e).ok().unwrap();
    assert_eq!(gone.beneficiary, "devhub.near");
    let stranger = env("gotham.community.devhub.near", "discussions.gotham.community.devhub.near", 0);
    assert!(matches!(d.destroy(&stranger), Err(DiscussionsError::OnlyDevHub)));
    let shallow = env("near", "discussions.gotham", 0);
    assert!(matches!(d.destroy(&shallow), Err(DiscussionsError::CommunityNotChildAccount)));
}

#[test]
fn social_db_by_network() {
    assert_eq!(social_db_contract("devhub.near"), "social.near");
    assert_eq!(social_db_contract("devhub.testnet"), "v1.social08.testnet");
}

#[test]
fn decimal_ids_read_back() {
    for n in [0u64, 7, 10, 99, 1234, 4294967295] {
        let text = u64_to_decimal(n);
        assert_eq!(text, n.to_string());
        assert_eq!(parse_u32(&text), Some(n as u32));
    }
}

#[test]
fn mentions() {
    assert!(get_text_mentions("no mentions here").is_empty());
    assert_eq!(get_text_mentions("@alice.near, @bob"), vec!["alice.near", "bob"]);
    assert_eq!(get_text_mentions("@ lonely @"), Vec::<String>::new());
    assert_eq!(get_text_mentions("hi @Zoë!"), vec!["Zoë"]);
}
