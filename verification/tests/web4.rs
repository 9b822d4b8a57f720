use devhub::community::CommunityInputs;
use devhub::contract::{Contract, Env};
use devhub::post::idea::{IdeaV1, VersionedIdea};
use devhub::post::{Post, PostBody, PostSnapshot};
use devhub::proposal::timeline::TimelineStatus;
use devhub::proposal::{
    Proposal, ProposalBodyV0, ProposalFundingCurrency, ProposalSnapshot, VersionedProposal,
    VersionedProposalBody,
};
use devhub::repost::{feed_post_index, feed_post_main, post_repost_text};
use devhub::web4::{parse_u32, split_path, web4_get, Web4Request, Web4Response};
use near_sdk::base64::engine::general_purpose::URL_SAFE_NO_PAD;
use near_sdk::base64::Engine;

fn page_of(contract: &Contract, path: &str) -> String {
    let response = web4_get(contract, Web4Request { path: path.to_string() });
    match response {
        Web4Response::Body { content_type, body } => {
            assert_eq!("text/html; charset=UTF-8", content_type);
            String::from_utf8(URL_SAFE_NO_PAD.decode(body).unwrap()).unwrap()
        }
    }
}

#[test]
fn test_community_path() {
    let env = Env {
        predecessor: "bob.near".to_string(),
        current: "bob.near".to_string(),
        block_timestamp: 0,
        block_height: 0,
        attached_deposit: 4_000_000_000_000_000_000_000_000,
        prepaid_gas: 300_000_000_000_000,
    };
    let mut contract = Contract::new();
    let created = contract.create_community(&env, CommunityInputs {
        handle: String::from("webassemblymusic"),
        name: String::from("WebAssembly Music"),
        description: String::from("Music stored forever in the NEAR blockchain"),
        tag: String::from("wasm"),
        logo_url: String::from("https://ipfs.near.social/ipfs/bafybeiesrsf4fpdmlfgcnxpuxiqlgw2lk3bietdt25mvumrjk5yhf2c54e"),
        banner_url: String::from("https://ipfs.near.social/ipfs/bafybeihsid3qgrb2dd4adsd4kuwe3pondtjr3u27ru6e2mbvabvm4rocru"),
        bio_markdown: Some(String::from("Music stored forever in the NEAR blockchain")),
    });
    assert!(created.is_ok());

    let body_string = page_of(&contract, "/community/webassemblymusic");
    assert!(body_string.contains("<meta property=\"og:description\" content=\"Music stored forever in the NEAR blockchain\" />"));
    assert!(body_string.contains("<meta name=\"twitter:title\" content=\"WebAssembly Music\">"));
    assert!(body_string.contains("https://near.social/devhub.near/widget/app?page=community&handle=webassemblymusic"));
    assert!(body_string.contains("{\"page\":\"community\",\"handle\":\"webassemblymusic\"}"));
}

#[test]
fn test_web4_unknown_path() {
    let contract = Contract::new();
    let body_string = page_of(&contract, "/unknown/path");
    assert!(body_string.contains("<meta name=\"twitter:description\" content=\"The decentralized home base for NEAR builders\">"));
    assert!(body_string.contains("<meta name=\"twitter:title\" content=\"near/dev/hub\">"));
    assert!(body_string.contains("https://near.social/devhub.near/widget/app"));
    assert!(body_string.contains("{\"page\":\"unknown\"}"));
}

#[test]
fn test_web4_unknown_community() {
    let contract = Contract::new();
    let body_string = page_of(&contract, "/community/blablablablabla");
    assert!(body_string.contains("<meta name=\"twitter:description\" content=\"The decentralized home base for NEAR builders\">"));
    assert!(body_string.contains("<meta name=\"twitter:title\" content=\"near/dev/hub\">"));
    assert!(body_string.contains("https://near.social/devhub.near/widget/app"));
    assert!(body_string.contains("https://near.org/devhub.near/widget/app"));
    assert!(body_string.contains("{\"page\":\"community\",\"handle\":\"blablablablabla\"}"));
}

fn best_proposal() -> Proposal {
    let body = ProposalBodyV0 {
        name: "The best proposal ever".to_string(),
        description: "You should just understand why this is the best proposal".to_string(),
        category: "Marketing".to_string(),
        summary: "It is obvious why this proposal is so great".to_string(),
        linked_proposals: vec![1, 3],
        requested_sponsorship_usd_amount: 1000000000,
        requested_sponsorship_paid_in_currency: ProposalFundingCurrency::USDT,
        receiver_account: "polyprogrammist.near".to_string(),
        supervisor: Some("frol.near".to_string()),
        requested_sponsor: "neardevdao.near".to_string(),
        timeline: TimelineStatus::Draft,
    };
    Proposal {
        id: 0,
        author_id: "bob.near".to_string(),
        social_db_post_block_height: 0,
        snapshot: ProposalSnapshot {
            editor_id: "bob.near".to_string(),
            timestamp: 0,
            labels: vec![],
            body: VersionedProposalBody::V0(body),
        },
        snapshot_history: vec![],
    }
}

#[test]
fn test_proposal_path() {
    let mut contract = Contract::new();
    contract.proposals.push(VersionedProposal::V0(best_proposal()));
    let body_string = page_of(&contract, "/proposal/0");
    assert!(body_string.contains("<meta property=\"og:description\" content=\"It is obvious why this proposal is so great\" />"));
    assert!(body_string.contains("<meta name=\"twitter:title\" content=\"The best proposal ever\">"));
    assert!(body_string.contains("https://near.social/devhub.near/widget/app?page=proposal&id=0"));
    assert!(body_string.contains("https://near.org/devhub.near/widget/app?page=proposal&id=0"));
    assert!(body_string.contains("{\"page\":\"proposal\",\"id\":\"0\"}"));
}

#[test]
fn test_proposal_path_unknown() {
    let contract = Contract::new();
    let body_string = page_of(&contract, "/proposal/1");
    assert!(body_string.contains("<meta name=\"twitter:description\" content=\"The decentralized home base for NEAR builders\">"));
    assert!(body_string.contains("<meta name=\"twitter:title\" content=\"near/dev/hub\">"));
    assert!(body_string.contains("https://near.social/devhub.near/widget/app"));
    assert!(body_string.contains("{\"page\":\"proposal\",\"id\":\"1\"}"));
}

#[test]
fn web4_escapes_html_in_names() {
    let mut contract = Contract::new();
    let mut p = best_proposal();
    if let VersionedProposalBody::V0(b) = &mut p.snapshot.body {
        b.name = "<b>Bold</b> & \"quoted\"".to_string();
    }
    contract.proposals.push(VersionedProposal::V0(p));
    let body_string = page_of(&contract, "/proposal/0");
    assert!(body_string.contains("content=\"&lt;b&gt;Bold&lt;/b&gt; &amp; \"quoted\"\">"));
}

#[test]
fn split_and_parse() {
    assert_eq!(split_path("/proposal/12"), vec!["", "proposal", "12"]);
    assert_eq!(split_path("a//b"), vec!["a", "", "b"]);
    assert_eq!(parse_u32("12"), Some(12));
    assert_eq!(parse_u32("4294967295"), Some(4294967295));
    assert_eq!(parse_u32("4294967296"), None);
    assert_eq!(parse_u32(""), None);
    assert_eq!(parse_u32("1x"), None);
    assert_eq!(parse_u32("+12"), Some(12));
    assert_eq!(parse_u32("+"), None);
}

#[test]
fn check_formatting() {
    let post = Post {
        id: 0,
        author_id: "neardevgov.near".to_string(),
        likes: vec![],
        snapshot: PostSnapshot {
            editor_id: "neardevgov.near".to_string(),
            timestamp: 0,
            labels: vec![],
            body: PostBody::Idea(VersionedIdea::V1(IdeaV1 { name: "A call for Zero Knowledge Work Group members!".to_string(), description: "We are excited to create a more formal Zero Knowledge Work Group (WG) to oversee official decisions on Zero Knowledge proposals. We’re looking for 3-7 experts to participate. Reply to the post if you’re interested in becoming a work group member.".to_string() })),
        },
        snapshot_history: vec![],
    };
    let text = post_repost_text(&post);
    assert_eq!(text, "@neardevgov.near [Posted on Developer DAO Board](https://near.social/#/devgovgigs.near/widget/Post?id=0)\n## Idea: A call for Zero Knowledge Work Group members!\nWe are excited to create a more formal Zero Knowledge Work Group (WG) to oversee official decisions on Zero Knowledge proposals. We’re looking for 3-7 experts to participate. Reply to the post if you’re interested in becoming a work group member.");
    assert_eq!(
        feed_post_main(&text),
        "{\"type\":\"md\",\"text\":\"@neardevgov.near [Posted on Developer DAO Board](https://near.social/#/devgovgigs.near/widget/Post?id=0)\\n## Idea: A call for Zero Knowledge Work Group members!\\nWe are excited to create a more formal Zero Knowledge Work Group (WG) to oversee official decisions on Zero Knowledge proposals. We’re looking for 3-7 experts to participate. Reply to the post if you’re interested in becoming a work group member.\"}"
    );
    assert_eq!(feed_post_index(), "{\"key\":\"main\",\"value\":{\"type\":\"md\"}}");
}
