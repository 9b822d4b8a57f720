use devhub::contract::Env;
use devhub::index::SetIndex;
use devhub::migrations::{
    state_version_read, unsafe_add_workspaces, unsafe_insert_old_post_authors, unsafe_migrate,
    unsafe_multiple_telegrams, unsafe_self_upgrade, CommunityV1, MigrationError, MigrationStep,
    StateVersion,
};
use devhub::post::idea::{IdeaV1, VersionedIdea};
use devhub::post::{Post, PostBody, PostSnapshot, VersionedPost};

fn env(predecessor: &str, gas: u64) -> Env {
    Env {
        predecessor: predecessor.to_string(),
        current: "devhub.near".to_string(),
        block_timestamp: 0,
        block_height: 0,
        attached_deposit: 0,
        prepaid_gas: gas,
    }
}

#[test]
fn migration_steps_in_order() {
    let me = env("devhub.near", 0);
    assert_eq!(state_version_read(None), StateVersion::V2);
    assert_eq!(state_version_read(Some(StateVersion::V5)), StateVersion::V5);
    assert_eq!(
        unsafe_migrate(&me, StateVersion::V1),
        Ok(Some((MigrationStep::AddAcl, Some(StateVersion::V2))))
    );
    assert_eq!(
        unsafe_migrate(&me, StateVersion::V3 { done: false, migrated_count: 200 }),
        Ok(Some((MigrationStep::InsertOldPostAuthors { start: 200, end: 300 }, None)))
    );
    assert_eq!(
        unsafe_migrate(&me, StateVersion::V3 { done: true, migrated_count: 250 }),
        Ok(Some((MigrationStep::AddCommunities, Some(StateVersion::V4))))
    );
    assert_eq!(unsafe_migrate(&me, StateVersion::V7), Ok(None));
    assert_eq!(unsafe_migrate(&env("eve.near", 0), StateVersion::V1), Err(MigrationError::Private));
}

#[test]
fn self_upgrade_keeps_gas_back() {
    assert_eq!(
        unsafe_self_upgrade(&env("devhub.near", 300_000_000_000_000)).ok().unwrap().migrate_gas,
        240_000_000_000_000
    );
    assert!(matches!(unsafe_self_upgrade(&env("eve.near", 300_000_000_000_000)), Err(MigrationError::Private)));
    assert!(matches!(
        unsafe_self_upgrade(&env("devhub.near", 10_000_000_000_000)),
        Err(MigrationError::NotEnoughGas)
    ));
}

fn post(id: u64, author: &str) -> VersionedPost {
    VersionedPost::V0(Post {
        id,
        author_id: author.to_string(),
        likes: vec![],
        snapshot: PostSnapshot {
            editor_id: author.to_string(),
            timestamp: 0,
            labels: vec![],
            body: PostBody::Idea(VersionedIdea::V1(IdeaV1 { name: "n".to_string(), description: "d".to_string() })),
        },
        snapshot_history: vec![],
    })
}

#[test]
fn old_post_authors_in_batches() {
    let posts = vec![post(0, "a.near"), post(1, "b.near"), post(2, "a.near")];
    let mut authors: SetIndex<u64> = SetIndex::new();
    assert_eq!(
        unsafe_insert_old_post_authors(&posts, &mut authors, 0, 2),
        StateVersion::V3 { done: false, migrated_count: 2 }
    );
    assert_eq!(authors.ids_of(&"a.near".to_string()), vec![0]);
    assert_eq!(
        unsafe_insert_old_post_authors(&posts, &mut authors, 2, 102),
        StateVersion::V3 { done: true, migrated_count: 3 }
    );
    assert_eq!(authors.ids_of(&"a.near".to_string()), vec![0, 2]);
    assert_eq!(authors.ids_of(&"b.near".to_string()), vec![1]);
}

fn community_v1(handle: &str, telegram: Option<&str>) -> CommunityV1 {
    CommunityV1 {
        handle: handle.to_string(),
        admins: vec!["bob.near".to_string()],
        name: "Name".to_string(),
        description: "Description".to_string(),
        bio_markdown: None,
        logo_url: "logo.png".to_string(),
        banner_url: "banner.png".to_string(),
        tag: "tag".to_string(),
        github_handle: Some("gh".to_string()),
        telegram_handle: telegram.map(|t| t.to_string()),
        twitter_handle: Some("tw".to_string()),
        website_url: Some("example.com".to_string()),
        github: Some("{}".to_string()),
        sponsorship: Some(true),
        wiki1: None,
        wiki2: None,
    }
}

#[test]
fn community_versions() {
    let v2 = unsafe_multiple_telegrams(vec![
        ("a".to_string(), community_v1("a", Some("tg"))),
        ("b".to_string(), community_v1("b", None)),
    ]);
    assert_eq!(v2.len(), 2);
    assert_eq!(v2[0].0, "a");
    assert_eq!(v2[0].1.telegram_handle, vec!["tg".to_string()]);
    assert!(v2[1].1.telegram_handle.is_empty());
    let v3 = unsafe_add_workspaces(v2);
    assert_eq!(v3[1].0, "b");
    assert!(v3[0].1.board.is_none());
    assert_eq!(v3[0].1.telegram_handle, vec!["tg".to_string()]);
    let c = &v3[0].1;
    assert_eq!(c.handle, "a");
    assert_eq!(c.admins, vec!["bob.near".to_string()]);
    assert_eq!(c.name, "Name");
    assert_eq!(c.description, "Description");
    assert_eq!(c.logo_url, "logo.png");
    assert_eq!(c.banner_url, "banner.png");
    assert_eq!(c.tag, "tag");
    assert_eq!(c.github_handle, Some("gh".to_string()));
    assert_eq!(c.twitter_handle, Some("tw".to_string()));
    assert_eq!(c.website_url, Some("example.com".to_string()));
    assert_eq!(c.github, Some("{}".to_string()));
}
