use devhub::changelog::ChangeLogType;
use devhub::community::{AddOn, AddOnError, CommunityInputs};
use devhub::contract::{Contract, ContractError, Env};
use devhub::notify::{NotifyPayload, NotifyValue};
use devhub::post::idea::{IdeaV1, VersionedIdea};
use devhub::post::solution::{SolutionV2, VersionedSolution};
use devhub::post::sponsorship::SponsorshipToken;
use devhub::post::{PostBody, VersionedPost};
use devhub::proposal::timeline::TimelineStatus;
use devhub::proposal::{ProposalBodyV0, ProposalFundingCurrency, VersionedProposalBody};

fn env_of(account: &str) -> Env {
    Env {
        predecessor: account.to_string(),
        current: account.to_string(),
        block_timestamp: 0,
        block_height: 0,
        attached_deposit: 0,
        prepaid_gas: 300_000_000_000_000,
    }
}

fn proposal_body(description: &str) -> ProposalBodyV0 {
    ProposalBodyV0 {
        name: "another post".to_string(),
        description: description.to_string(),
        category: "Marketing".to_string(),
        summary: "sum".to_string(),
        linked_proposals: vec![1, 3],
        requested_sponsorship_usd_amount: 1000000000,
        requested_sponsorship_paid_in_currency: ProposalFundingCurrency::USDT,
        receiver_account: "polyprogrammist.near".to_string(),
        supervisor: Some("frol.near".to_string()),
        requested_sponsor: "neardevdao.near".to_string(),
        timeline: TimelineStatus::Draft,
    }
}

fn list_keys(payload: &NotifyPayload) -> Vec<String> {
    match payload {
        NotifyPayload::List(entries) => entries.iter().map(|e| e.key.clone()).collect(),
        NotifyPayload::Single(e) => vec![e.key.clone()],
    }
}

#[test]
fn test_add_proposal() {
    let env = env_of("bob.near");
    let mut contract = Contract::new();
    let body = proposal_body(
        "Hello to @petersalomonsen.near and @psalomo.near. This is an idea with mentions.",
    );
    let effects = contract
        .add_proposal(&env, VersionedProposalBody::V0(body), vec![])
        .ok()
        .unwrap();
    // The proposal is announced on the feed, then stored by the callback, then the
    // people it concerns are notified.
    assert_eq!(effects.proposal.id, 0);
    assert_eq!(effects.feed.social_db, "social.near");
    let notification = effects.subscribers.unwrap();
    assert_eq!(notification.notifier, "bob.near");
    assert_eq!(
        list_keys(&notification.payload),
        vec!["petersalomonsen.near", "psalomo.near.", "frol.near", "neardevdao.near"]
    );
    match &notification.payload {
        NotifyPayload::List(entries) => {
            for e in entries {
                match &e.value {
                    NotifyValue::ProposalMention { proposal, notifier, .. } => {
                        assert_eq!(*proposal, 0);
                        assert_eq!(notifier, "bob.near");
                    }
                    _ => panic!("Expected a proposal mention"),
                }
            }
        }
        _ => panic!("Expected a list of notifications"),
    }
    let stored = contract.set_block_height_callback(effects.proposal, 1234);
    assert_eq!(stored.proposal_id, 0);
    assert_eq!(contract.get_all_proposal_ids(), vec![0]);
    assert_eq!(contract.get_proposals_by_author("bob.near".to_string()), vec![0]);
}

#[test]
fn add_proposal_unknown_category() {
    let env = env_of("bob.near");
    let mut contract = Contract::new();
    let mut body = proposal_body("no mentions");
    body.category = "Gardening".to_string();
    let r = contract.add_proposal(&env, VersionedProposalBody::V0(body), vec![]);
    assert!(matches!(r, Err(ContractError::UnknownCategory)));
    assert!(contract.get_all_proposal_ids().is_empty());
}

fn idea(name: &str, description: &str) -> PostBody {
    PostBody::Idea(VersionedIdea::V1(IdeaV1 {
        name: name.to_string(),
        description: description.to_string(),
    }))
}

#[test]
fn test_add_post_with_mention() {
    let env = env_of("bob.near");
    let mut contract = Contract::new();
    let body = idea(
        "another post",
        "Hello to @petersalomonsen.near and @psalomo.near. This is an idea with mentions.",
    );
    let effects = contract.add_post(&env, None, body, vec![]).ok().unwrap();
    // A top-level post is reposted and its mentions notified: two calls.
    assert!(effects.reply.is_none());
    assert!(effects.repost.is_some());
    let mentions = effects.mentions.unwrap();
    assert_eq!(mentions.notifier, "bob.near");
    assert_eq!(list_keys(&mentions.payload), vec!["petersalomonsen.near", "psalomo.near."]);
    match &mentions.payload {
        NotifyPayload::List(entries) => {
            for e in entries {
                assert!(matches!(e.value, NotifyValue::PostMention { post: 0 }));
            }
        }
        _ => panic!("Expected a list of notifications"),
    }
}

#[test]
fn reply_notifies_parent_author() {
    let env = env_of("bob.near");
    let mut contract = Contract::new();
    contract.add_post(&env, None, idea("first", "no mentions"), vec![]).ok().unwrap();
    let alice = Env { predecessor: "alice.near".to_string(), ..env_of("bob.near") };
    let effects = contract.add_post(&alice, Some(0), idea("reply", "plain"), vec![]).ok().unwrap();
    assert!(effects.repost.is_none());
    assert!(effects.mentions.is_none());
    let reply = effects.reply.unwrap();
    match reply.payload {
        NotifyPayload::Single(e) => {
            assert_eq!(e.key, "bob.near");
            assert!(matches!(e.value, NotifyValue::PostReply { post: 0 }));
        }
        _ => panic!("Expected a single notification"),
    }
    assert_eq!(contract.get_children_ids(Some(0)), vec![1]);
    assert_eq!(contract.get_parent_id(1), Some(0));
    assert_eq!(contract.get_posts_by_author("alice.near".to_string()), vec![1]);
}

#[test]
fn add_post_missing_parent() {
    let env = env_of("bob.near");
    let mut contract = Contract::new();
    let r = contract.add_post(&env, Some(7), idea("x", "y"), vec![]);
    assert!(matches!(r, Err(ContractError::ParentNotFound)));
}

#[test]
fn like_is_idempotent() {
    let env = env_of("bob.near");
    let mut contract = Contract::new();
    contract.add_post(&env, None, idea("first", "no mentions"), vec![]).ok().unwrap();
    let alice = Env { predecessor: "alice.near".to_string(), ..env_of("bob.near") };
    assert!(contract.add_like(&alice, 0).is_ok());
    assert!(contract.add_like(&alice, 0).is_ok());
    let likes = match contract.get_post(0) {
        devhub::post::VersionedPost::V0(p) => p.likes.len(),
    };
    assert_eq!(likes, 1);
}

fn fake_addon(id: &str) -> AddOn {
    AddOn {
        id: id.to_string(),
        title: "GitHub AddOn".to_string(),
        description: "Current status of NEARCORE repo".to_string(),
        view_widget: "custom-viewer-widget".to_string(),
        configurator_widget: "github-configurator".to_string(),
        icon: "bi bi-github".to_string(),
    }
}

fn same_addon(a: &AddOn, b: &AddOn) -> bool {
    a.id == b.id
        && a.title == b.title
        && a.description == b.description
        && a.view_widget == b.view_widget
        && a.configurator_widget == b.configurator_widget
        && a.icon == b.icon
}

#[test]
fn test_create_addon() {
    let env = env_of("bob.near");
    let mut contract = Contract::new();
    let input = fake_addon("CommunityAddOnId");
    assert_eq!(contract.create_addon(&env, fake_addon("CommunityAddOnId")), Ok(()));
    let addon = contract.get_addon(&"CommunityAddOnId".to_string());
    assert!(same_addon(addon.unwrap(), &input));
}

#[test]
fn test_get_all_addons() {
    let env = env_of("bob.near");
    let mut contract = Contract::new();
    let input = fake_addon("CommunityAddOnId");
    assert_eq!(contract.create_addon(&env, fake_addon("CommunityAddOnId")), Ok(()));
    let addons = contract.get_all_addons();
    assert!(same_addon(addons[0], &input));
}

#[test]
fn test_get_addon() {
    let env = env_of("bob.near");
    let mut contract = Contract::new();
    let input = fake_addon("CommunityAddOnId");
    assert_eq!(contract.create_addon(&env, fake_addon("CommunityAddOnId")), Ok(()));
    let addon = contract.get_addon(&"CommunityAddOnId".to_string());
    assert!(same_addon(addon.unwrap(), &input));
    assert!(contract.get_addon(&"missing".to_string()).is_none());
}

#[test]
fn test_update_addon() {
    let env = env_of("bob.near");
    let mut contract = Contract::new();
    let input = fake_addon("test");
    assert_eq!(contract.create_addon(&env, fake_addon("test")), Ok(()));
    assert_eq!(
        contract.update_addon(&env, AddOn { title: "Telegram AddOn".to_string(), ..input }),
        Ok(())
    );
    let addons = contract.get_all_addons();
    assert_eq!(addons[0].title, "Telegram AddOn".to_string());
}

#[test]
fn addon_errors() {
    let env = env_of("bob.near");
    let mut contract = Contract::new();
    let stranger = Env { predecessor: "eve.near".to_string(), ..env_of("bob.near") };
    assert_eq!(
        contract.create_addon(&stranger, fake_addon("xyz")),
        Err(ContractError::OnlyModeratorsOrAdmin)
    );
    assert_eq!(
        contract.create_addon(&env, fake_addon("x")),
        Err(ContractError::InvalidAddOn(AddOnError::IdLength))
    );
    assert_eq!(contract.create_addon(&env, fake_addon("xyz")), Ok(()));
    assert_eq!(contract.create_addon(&env, fake_addon("xyz")), Err(ContractError::AddOnAlreadyExists));
    // Updating sets the add-on, whether or not it existed.
    assert_eq!(contract.update_addon(&env, fake_addon("abc")), Ok(()));
    assert_eq!(contract.get_all_addons().len(), 2);
    assert_eq!(contract.delete_addon(&env, &"xyz".to_string()), Ok(()));
    assert_eq!(contract.delete_addon(&env, &"xyz".to_string()), Err(ContractError::AddOnNotFound));
    assert_eq!(contract.get_all_addons().len(), 1);
}

fn community_inputs(handle: &str) -> CommunityInputs {
    CommunityInputs {
        handle: handle.to_string(),
        name: "Gotham".to_string(),
        tag: "some".to_string(),
        description: "This is a test community.".to_string(),
        bio_markdown: Some("This is a sample text about your community".to_string()),
        logo_url: "https://example.com/logo.png".to_string(),
        banner_url: "https://example.com/banner.png".to_string(),
    }
}

#[test]
fn create_community_and_errors() {
    let mut env = env_of("devhub.near");
    env.predecessor = "bob.near".to_string();
    let mut contract = Contract::new();
    assert!(matches!(
        contract.create_community(&env, community_inputs("gotham")),
        Err(ContractError::InsufficientDeposit)
    ));
    env.attached_deposit = 4_000_000_000_000_000_000_000_000;
    let call = contract.create_community(&env, community_inputs("gotham")).ok().unwrap();
    assert_eq!(call.factory, "community.devhub.near");
    assert_eq!(call.handle, "gotham");
    assert!(contract.get_community(&"gotham".to_string()).is_some());
    assert!(matches!(
        contract.create_community(&env, community_inputs("gotham")),
        Err(ContractError::CommunityAlreadyExists)
    ));
}

#[test]
fn label_index_follows_edits() {
    let env = env_of("bob.near");
    let mut contract = Contract::new();
    contract
        .add_post(&env, None, idea("first", "text"), vec!["a".to_string(), "b".to_string()])
        .ok()
        .unwrap();
    contract.add_post(&env, None, idea("second", "text"), vec!["b".to_string()]).ok().unwrap();
    assert_eq!(contract.get_posts_by_label("a".to_string()), vec![0]);
    assert_eq!(contract.get_posts_by_label("b".to_string()), vec![0, 1]);
    assert!(contract
        .edit_post(&env, 0, idea("first", "edited"), vec!["b".to_string(), "c".to_string()])
        .is_ok());
    assert!(contract.get_posts_by_label("a".to_string()).is_empty());
    assert_eq!(contract.get_posts_by_label("b".to_string()), vec![0, 1]);
    assert_eq!(contract.get_posts_by_label("c".to_string()), vec![0]);
    assert_eq!(contract.get_all_labels(), vec!["a".to_string(), "b".to_string(), "c".to_string()]);
}

#[test]
fn change_log_keeps_the_latest_fifty() {
    let mut env = env_of("bob.near");
    let mut contract = Contract::new();
    for i in 0..60u32 {
        env.block_height = i as u64;
        contract.add_change_log(&env, ChangeLogType::Proposal(i));
    }
    assert_eq!(contract.change_log.len(), 50);
    assert_eq!(contract.change_log[0].block_id, 10);
    assert_eq!(contract.change_log[49].block_id, 59);
}

#[test]
fn test_solution_posts() {
    let env = env_of("bob.near");
    let mut contract = Contract::new();
    let body = PostBody::Solution(VersionedSolution::V2(SolutionV2 {
        name: "Solution Test".to_string(),
        description: "This is a test solution post.".to_string(),
        requested_sponsor: Some("neardevgov.near".to_string()),
        requested_sponsorship_amount: 1000,
        requested_sponsorship_token: Some(SponsorshipToken::NEAR),
    }));
    let effects = contract.add_post(&env, None, body, vec![]).ok().unwrap();
    let repost = effects.repost.unwrap();
    assert_eq!(
        repost.text,
        "@bob.near [Posted on Developer DAO Board](https://near.social/#/devgovgigs.near/widget/Post?id=0)\n## Solution: Solution Test\nThis is a test solution post."
    );
    match contract.get_post(0) {
        VersionedPost::V0(p) => {
            assert_eq!(p.id, 0);
            assert_eq!(p.author_id, "bob.near");
            match &p.snapshot.body {
                PostBody::Solution(VersionedSolution::V2(s)) => {
                    assert_eq!(s.name, "Solution Test");
                    assert_eq!(s.requested_sponsorship_amount, 1000);
                    assert!(matches!(s.requested_sponsorship_token, Some(SponsorshipToken::NEAR)));
                }
                _ => panic!("Expected a solution"),
            }
        }
    }
}
