//! Migrations of the stored state between versions: the order of the steps,
//! and the transformations of the data that they make.
use crate::account::AccountId;
use crate::community::{CommunityHandle, WikiPage};
use crate::contract::Env;
use crate::index::SetIndex;
use crate::post::VersionedPost;
use vstd::prelude::*;

verus! {

pub struct CommunityV1 {
    pub handle: CommunityHandle,
    pub admins: Vec<AccountId>,
    pub name: String,
    pub description: String,
    pub bio_markdown: Option<String>,
    pub logo_url: String,
    pub banner_url: String,
    pub tag: String,
    pub github_handle: Option<String>,
    pub telegram_handle: Option<String>,
    pub twitter_handle: Option<String>,
    pub website_url: Option<String>,
    /// JSON string of github board configuration
    pub github: Option<String>,
    pub sponsorship: Option<bool>,
    pub wiki1: Option<WikiPage>,
    pub wiki2: Option<WikiPage>,
}

pub struct CommunityV2 {
    pub handle: CommunityHandle,
    pub admins: Vec<AccountId>,
    pub name: String,
    pub description: String,
    pub bio_markdown: Option<String>,
    pub logo_url: String,
    pub banner_url: String,
    pub tag: String,
    pub github_handle: Option<String>,
    pub telegram_handle: Vec<String>,
    pub twitter_handle: Option<String>,
    pub website_url: Option<String>,
    /// JSON string of github board configuration
    pub github: Option<String>,
    pub sponsorship: Option<bool>,
    pub wiki1: Option<WikiPage>,
    pub wiki2: Option<WikiPage>,
}

pub struct CommunityV3 {
    pub handle: CommunityHandle,
    pub admins: Vec<AccountId>,
    pub name: String,
    pub description: String,
    pub bio_markdown: Option<String>,
    pub logo_url: String,
    pub banner_url: String,
    pub tag: String,
    pub github_handle: Option<String>,
    pub telegram_handle: Vec<String>,
    pub twitter_handle: Option<String>,
    pub website_url: Option<String>,
    /// JSON string of github board configuration
    pub github: Option<String>,
    /// JSON string of kanban board configuration
    pub board: Option<String>,
    pub wiki1: Option<WikiPage>,
    pub wiki2: Option<WikiPage>,
}

/// The telegram handles of a first-version community, as a list: its single handle if any.
pub open spec fn telegram_list(t: Option<String>) -> Seq<String> {
    match t {
        Some(h) => seq![h],
        None => Seq::empty(),
    }
}

/// A second-version community carries over every field of a first-version one,
/// with the telegram handle as a list.
pub open spec fn upgraded_v2(c: CommunityV1, r: CommunityV2) -> bool {
    &&& r.handle == c.handle
    &&& r.admins == c.admins
    &&& r.name == c.name
    &&& r.description == c.description
    &&& r.bio_markdown == c.bio_markdown
    &&& r.logo_url == c.logo_url
    &&& r.banner_url == c.banner_url
    &&& r.tag == c.tag
    &&& r.github_handle == c.github_handle
    &&& r.telegram_handle@ == telegram_list(c.telegram_handle)
    &&& r.twitter_handle == c.twitter_handle
    &&& r.website_url == c.website_url
    &&& r.github == c.github
    &&& r.sponsorship == c.sponsorship
    &&& r.wiki1 == c.wiki1
    &&& r.wiki2 == c.wiki2
}

/// A third-version community carries over every field of a second-version one
/// but the sponsorship flag, and has no board.
pub open spec fn upgraded_v3(c: CommunityV2, r: CommunityV3) -> bool {
    &&& r.handle == c.handle
    &&& r.admins == c.admins
    &&& r.name == c.name
    &&& r.description == c.description
    &&& r.bio_markdown == c.bio_markdown
    &&& r.logo_url == c.logo_url
    &&& r.banner_url == c.banner_url
    &&& r.tag == c.tag
    &&& r.github_handle == c.github_handle
    &&& r.telegram_handle == c.telegram_handle
    &&& r.twitter_handle == c.twitter_handle
    &&& r.website_url == c.website_url
    &&& r.github == c.github
    &&& r.board is None
    &&& r.wiki1 == c.wiki1
    &&& r.wiki2 == c.wiki2
}

/// The second version of a community allows several telegram handles.
pub fn community_v2_from_v1(c: CommunityV1) -> (r: CommunityV2)
    ensures
        upgraded_v2(c, r),
{
    let mut telegram: Vec<String> = Vec::new();
    match c.telegram_handle {
        Some(h) => {
            telegram.push(h);
        },
        None => {},
    }
    assert(telegram@ =~= telegram_list(c.telegram_handle));
    CommunityV2 {
        handle: c.handle,
        admins: c.admins,
        name: c.name,
        description: c.description,
        bio_markdown: c.bio_markdown,
        logo_url: c.logo_url,
        banner_url: c.banner_url,
        tag: c.tag,
        github_handle: c.github_handle,
        telegram_handle: telegram,
        twitter_handle: c.twitter_handle,
        website_url: c.website_url,
        github: c.github,
        sponsorship: c.sponsorship,
        wiki1: c.wiki1,
        wiki2: c.wiki2,
    }
}

/// The third version of a community drops the sponsorship flag and has no board yet.
pub fn community_v3_from_v2(c: CommunityV2) -> (r: CommunityV3)
    ensures
        upgraded_v3(c, r),
{
    CommunityV3 {
        handle: c.handle,
        admins: c.admins,
        name: c.name,
        description: c.description,
        bio_markdown: c.bio_markdown,
        logo_url: c.logo_url,
        banner_url: c.banner_url,
        tag: c.tag,
        github_handle: c.github_handle,
        telegram_handle: c.telegram_handle,
        twitter_handle: c.twitter_handle,
        website_url: c.website_url,
        github: c.github,
        board: None,
        wiki1: c.wiki1,
        wiki2: c.wiki2,
    }
}

/// The communities of a fifth-version state, each under its key, upgraded to the
/// second community version; keys and order are kept.
pub fn unsafe_multiple_telegrams(communities: Vec<(String, CommunityV1)>) -> (r: Vec<(String, CommunityV2)>)
    ensures
        r@.len() == communities@.len(),
        forall|i: int| 0 <= i < r@.len() ==> (#[trigger] r@[i]).0 == communities@[i].0
            && upgraded_v2(communities@[i].1, r@[i].1),
{
    let ghost all = communities@;
    let mut rest = communities;
    let mut rev: Vec<(String, CommunityV2)> = Vec::new();
    while rest.len() > 0
        invariant
            rest@ == all.subrange(0, rest@.len() as int),
            rev@.len() + rest@.len() == all.len(),
            forall|j: int| 0 <= j < rev@.len() ==> (#[trigger] rev@[j]).0 == all[all.len() - 1 - j].0
                && upgraded_v2(all[all.len() - 1 - j].1, rev@[j].1),
        decreases rest@.len(),
    {
        let (k, c) = rest.pop().unwrap();
        rev.push((k, community_v2_from_v1(c)));
        proof {
            assert(rest@ =~= all.subrange(0, rest@.len() as int));
        }
    }
    let mut r: Vec<(String, CommunityV2)> = Vec::new();
    while rev.len() > 0
        invariant
            r@.len() + rev@.len() == all.len(),
            forall|j: int| 0 <= j < rev@.len() ==> (#[trigger] rev@[j]).0 == all[all.len() - 1 - j].0
                && upgraded_v2(all[all.len() - 1 - j].1, rev@[j].1),
            forall|j: int| 0 <= j < r@.len() ==> (#[trigger] r@[j]).0 == all[j].0 && upgraded_v2(all[j].1, r@[j].1),
        decreases rev@.len(),
    {
        let x = rev.pop().unwrap();
        r.push(x);
    }
    r
}

/// The communities of a sixth-version state, each under its key, upgraded to the
/// third community version; keys and order are kept.
pub fn unsafe_add_workspaces(communities: Vec<(String, CommunityV2)>) -> (r: Vec<(String, CommunityV3)>)
    ensures
        r@.len() == communities@.len(),
        forall|i: int| 0 <= i < r@.len() ==> (#[trigger] r@[i]).0 == communities@[i].0
            && upgraded_v3(communities@[i].1, r@[i].1),
{
    let ghost all = communities@;
    let mut rest = communities;
    let mut rev: Vec<(String, CommunityV3)> = Vec::new();
    while rest.len() > 0
        invariant
            rest@ == all.subrange(0, rest@.len() as int),
            rev@.len() + rest@.len() == all.len(),
            forall|j: int| 0 <= j < rev@.len() ==> (#[trigger] rev@[j]).0 == all[all.len() - 1 - j].0
                && upgraded_v3(all[all.len() - 1 - j].1, rev@[j].1),
        decreases rest@.len(),
    {
        let (k, c) = rest.pop().unwrap();
        rev.push((k, community_v3_from_v2(c)));
        proof {
            assert(rest@ =~= all.subrange(0, rest@.len() as int));
        }
    }
    let mut r: Vec<(String, CommunityV3)> = Vec::new();
    while rev.len() > 0
        invariant
            r@.len() + rev@.len() == all.len(),
            forall|j: int| 0 <= j < rev@.len() ==> (#[trigger] rev@[j]).0 == all[all.len() - 1 - j].0
                && upgraded_v3(all[all.len() - 1 - j].1, rev@[j].1),
            forall|j: int| 0 <= j < r@.len() ==> (#[trigger] r@[j]).0 == all[j].0 && upgraded_v3(all[j].1, r@[j].1),
        decreases rev@.len(),
    {
        let x = rev.pop().unwrap();
        r.push(x);
    }
    r
}

/// The versions of the stored state, in the order migrations pass through them.
#[derive(Debug, Clone, Copy, PartialEq, Eq, Structural)]
pub enum StateVersion {
    V1,
    V2,
    V3 { done: bool, migrated_count: u64 },
    V4,
    V5,
    V6,
    V7,
}

/// One migration step, as the state that it reads and writes names it.
#[derive(Debug, Clone, Copy, PartialEq, Eq, Structural)]
pub enum MigrationStep {
    AddAcl,
    AddPostAuthors,
    InsertOldPostAuthors { start: u64, end: u64 },
    AddCommunities,
    AddFeaturedCommunities,
    MultipleTelegrams,
    AddWorkspaces,
}

/// What `unsafe_migrate` does in a given version: the step to run and the
/// version recorded after it (the batch step records its own), or nothing when
/// migration is done.
pub open spec fn migration_plan(v: StateVersion) -> Option<(MigrationStep, Option<StateVersion>)> {
    match v {
        StateVersion::V1 => Some((MigrationStep::AddAcl, Some(StateVersion::V2))),
        StateVersion::V2 => Some((MigrationStep::AddPostAuthors, Some(StateVersion::V3 { done: false, migrated_count: 0 }))),
        StateVersion::V3 { done: false, migrated_count } => Some(
            (MigrationStep::InsertOldPostAuthors { start: migrated_count, end: (migrated_count + 100) as u64 }, None),
        ),
        StateVersion::V3 { done: true, migrated_count: _ } => Some((MigrationStep::AddCommunities, Some(StateVersion::V4))),
        StateVersion::V4 => Some((MigrationStep::AddFeaturedCommunities, Some(StateVersion::V5))),
        StateVersion::V5 => Some((MigrationStep::MultipleTelegrams, Some(StateVersion::V6))),
        StateVersion::V6 => Some((MigrationStep::AddWorkspaces, Some(StateVersion::V7))),
        StateVersion::V7 => None,
    }
}

/// The position of a state version in the migration order.
pub open spec fn version_rank(v: StateVersion) -> int {
    match v {
        StateVersion::V1 => 1,
        StateVersion::V2 => 2,
        StateVersion::V3 { done, migrated_count: _ } => if done {
            4
        } else {
            3
        },
        StateVersion::V4 => 5,
        StateVersion::V5 => 6,
        StateVersion::V6 => 7,
        StateVersion::V7 => 8,
    }
}

/// Every migration step that records a version records a later one, and only
/// the last version has no step left.
pub proof fn law_migration_moves_forward(v: StateVersion)
    ensures
        migration_plan(v) matches Some((_, Some(next))) ==> version_rank(next) > version_rank(v),
        migration_plan(v) is None <==> v == StateVersion::V7,
{
}

/// Why a migration call was refused.
#[derive(Debug, Clone, Copy, PartialEq, Eq, Structural)]
pub enum MigrationError {
    /// "Method is private": only the contract itself may call.
    Private,
    /// Less gas attached than the upgrade keeps for the migration call's caller.
    NotEnoughGas,
}

/// The gas that a self-upgrade keeps back from the migration call: 60 Tgas.
pub const UPGRADE_RESERVED_GAS: u64 = 60_000_000_000_000u64;

/// A self-upgrade: deploy the attached code, then call `unsafe_migrate` with
/// `migrate_gas`.
pub struct SelfUpgrade {
    pub migrate_gas: u64,
}

/// Upgrades the contract's code; only the contract itself may, and the migration
/// call gets the prepaid gas but the reserve.
pub fn unsafe_self_upgrade(env: &Env) -> (r: Result<SelfUpgrade, MigrationError>)
    ensures
        env.predecessor@ != env.current@ ==> r == Err::<SelfUpgrade, MigrationError>(MigrationError::Private),
        env.predecessor@ == env.current@ && env.prepaid_gas < UPGRADE_RESERVED_GAS ==> r == Err::<
            SelfUpgrade,
            MigrationError,
        >(MigrationError::NotEnoughGas),
        env.predecessor@ == env.current@ && env.prepaid_gas >= UPGRADE_RESERVED_GAS ==> (r matches Ok(u)
            && u.migrate_gas == env.prepaid_gas - UPGRADE_RESERVED_GAS),
{
    if env.predecessor != env.current {
        return Err(MigrationError::Private);
    }
    if env.prepaid_gas < UPGRADE_RESERVED_GAS {
        return Err(MigrationError::NotEnoughGas);
    }
    Ok(SelfUpgrade { migrate_gas: env.prepaid_gas - UPGRADE_RESERVED_GAS })
}

/// The version of a state that records `stored`: one that records none is of the
/// second version, the first that recorded its version.
pub open spec fn stored_version(stored: Option<StateVersion>) -> StateVersion {
    match stored {
        Some(v) => v,
        None => StateVersion::V2,
    }
}

/// The stored state version; a state that records none is of the second version,
/// the first that recorded its version.
pub fn state_version_read(stored: Option<StateVersion>) -> (r: StateVersion)
    ensures
        r == stored_version(stored),
{
    match stored {
        Some(v) => v,
        None => StateVersion::V2,
    }
}

/// The next step of the migration from the stored version; `None` means the
/// migration is done. Only the contract itself may migrate. A batch of old post
/// authors covers the next hundred posts.
pub fn unsafe_migrate(env: &Env, current_version: StateVersion) -> (r: Result<Option<(MigrationStep, Option<StateVersion>)>, MigrationError>)
    requires
        current_version matches StateVersion::V3 { done: false, migrated_count } ==> migrated_count + 100 <= u64::MAX,
    ensures
        env.predecessor@ != env.current@ ==> r == Err::<Option<(MigrationStep, Option<StateVersion>)>, MigrationError>(
            MigrationError::Private,
        ),
        env.predecessor@ == env.current@ ==> r == Ok::<Option<(MigrationStep, Option<StateVersion>)>, MigrationError>(
            migration_plan(current_version),
        ),
{
    if env.predecessor != env.current {
        return Err(MigrationError::Private);
    }
    Ok(match current_version {
        StateVersion::V1 => Some((MigrationStep::AddAcl, Some(StateVersion::V2))),
        StateVersion::V2 => Some((MigrationStep::AddPostAuthors, Some(StateVersion::V3 { done: false, migrated_count: 0 }))),
        StateVersion::V3 { done: false, migrated_count } => Some(
            (MigrationStep::InsertOldPostAuthors { start: migrated_count, end: migrated_count + 100 }, None),
        ),
        StateVersion::V3 { done: true, migrated_count: _ } => Some((MigrationStep::AddCommunities, Some(StateVersion::V4))),
        StateVersion::V4 => Some((MigrationStep::AddFeaturedCommunities, Some(StateVersion::V5))),
        StateVersion::V5 => Some((MigrationStep::MultipleTelegrams, Some(StateVersion::V6))),
        StateVersion::V6 => Some((MigrationStep::AddWorkspaces, Some(StateVersion::V7))),
        StateVersion::V7 => None,
    })
}

/// The version that a batch of old post authors records: how far it got, at most
/// the number of posts, and whether it reached the last post.
pub open spec fn batch_version(start: u64, end: u64, total: u64) -> StateVersion {
    let last = if end < total {
        end
    } else {
        total
    };
    StateVersion::V3 { done: last == total, migrated_count: last }
}

/// The version recorded after one migration call from version `v`, in a state
/// with `total` posts; `None` when the migration is done and nothing is recorded.
pub open spec fn version_after(v: StateVersion, total: u64) -> Option<StateVersion> {
    match migration_plan(v) {
        Some((MigrationStep::InsertOldPostAuthors { start, end }, None)) => Some(batch_version(start, end, total)),
        Some((_, next)) => next,
        None => None,
    }
}

/// One migration call, from the stored version (the second one when none is
/// stored) in a state with `total` posts: the first version moves to the second,
/// the second starts the post-author batches at zero, each batch moves the count
/// to the next hundred posts or to the last post and is done there, a finished
/// batch moves on to the fourth version, and so on up to the seventh, where the
/// migration is done and nothing changes. Each batch that starts within the
/// posts either finishes or covers a hundred more.
pub proof fn law_migration_versions(stored: Option<StateVersion>, total: u64)
    requires
        stored_version(stored) matches StateVersion::V3 { done: false, migrated_count } ==> migrated_count + 100
            <= u64::MAX,
    ensures
        version_after(stored_version(stored), total) == match stored_version(stored) {
            StateVersion::V1 => Some(StateVersion::V2),
            StateVersion::V2 => Some(StateVersion::V3 { done: false, migrated_count: 0 }),
            StateVersion::V3 { done: false, migrated_count } => {
                let m = if migrated_count + 100 < total {
                    (migrated_count + 100) as u64
                } else {
                    total
                };
                Some(StateVersion::V3 { done: m == total, migrated_count: m })
            },
            StateVersion::V3 { done: true, migrated_count: _ } => Some(StateVersion::V4),
            StateVersion::V4 => Some(StateVersion::V5),
            StateVersion::V5 => Some(StateVersion::V6),
            StateVersion::V6 => Some(StateVersion::V7),
            StateVersion::V7 => None::<StateVersion>,
        },
        stored is None ==> version_after(stored_version(stored), total) == Some(
            StateVersion::V3 { done: false, migrated_count: 0 },
        ),
        stored_version(stored) matches StateVersion::V3 { done: false, migrated_count } ==> (migrated_count <= total
            ==> (version_after(stored_version(stored), total) matches Some(StateVersion::V3 { done, migrated_count: m })
            && (done || m == migrated_count + 100))),
{
}

/// Adds the posts at positions `start..min(end, number of posts)` to their
/// authors' sets; the result records how far the migration got and whether it
/// reached the last post.
pub fn unsafe_insert_old_post_authors(posts: &Vec<VersionedPost>, authors: &mut SetIndex<u64>, start: u64, end: u64) -> (r: StateVersion)
    requires
        old(authors).wf(),
    ensures
        final(authors).wf(),
        r == batch_version(start, end, posts@.len() as u64),
        ({
            let total = posts@.len() as u64;
            let last = if end < total {
                end
            } else {
                total
            };
            &&& forall|i: int| start <= i < last ==> (#[trigger] final(authors).ids(posts@[i].inner().author_id@)).contains(
                posts@[i].inner().id,
            )
            &&& forall|a: Seq<char>| #[trigger] old(authors).ids(a).subset_of(final(authors).ids(a))
            &&& forall|a: Seq<char>, x: u64| #[trigger] final(authors).ids(a).contains(x) ==> old(authors).ids(a).contains(x)
                || exists|i: int| start <= i < last && posts@[i].inner().author_id@ == a && posts@[i].inner().id == x
        }),
{
    let total = posts.len() as u64;
    let last = if end < total {
        end
    } else {
        total
    };
    let ghost orig = *authors;
    let mut i = start;
    while i < last
        invariant
            authors.wf(),
            last <= total,
            total == posts@.len(),
            start <= i || i >= last,
            forall|k: int| start <= k < i && k < last ==> (#[trigger] authors.ids(posts@[k].inner().author_id@)).contains(
                posts@[k].inner().id,
            ),
            forall|a: Seq<char>| #[trigger] orig.ids(a).subset_of(authors.ids(a)),
            forall|a: Seq<char>, x: u64| #[trigger] authors.ids(a).contains(x) ==> orig.ids(a).contains(x)
                || exists|k: int| start <= k < i && k < last && posts@[k].inner().author_id@ == a && posts@[k].inner().id == x,
        decreases last - i,
    {
        assert(i < posts@.len());
        let n = posts.len();
        let idx = i as usize;
        assert(idx as int == i as int);
        let (author, id) = match &posts[idx] {
            VersionedPost::V0(p) => (p.author_id.clone(), p.id),
        };
        assert(author@ == posts@[i as int].inner().author_id@ && id == posts@[i as int].inner().id);
        let ghost before = *authors;
        authors.insert_id(&author, id);
        proof {
            assert forall|a: Seq<char>| #[trigger] orig.ids(a).subset_of(authors.ids(a)) by {
                assert(orig.ids(a).subset_of(before.ids(a)));
            }
            assert forall|k: int| start <= k < i + 1 && k < last implies (#[trigger] authors.ids(posts@[k].inner().author_id@)).contains(
                posts@[k].inner().id,
            ) by {
                if k < i {
                    assert(before.ids(posts@[k].inner().author_id@).contains(posts@[k].inner().id));
                }
            }
            assert forall|a: Seq<char>, x: u64| #[trigger] authors.ids(a).contains(x) implies orig.ids(a).contains(x)
                || exists|k: int| start <= k < i + 1 && k < last && posts@[k].inner().author_id@ == a && posts@[k].inner().id == x by {
                if before.ids(a).contains(x) {
                    if !orig.ids(a).contains(x) {
                        let k = choose|k: int| start <= k < i && k < last && posts@[k].inner().author_id@ == a && posts@[k].inner().id == x;
                        assert(start <= k < i + 1);
                    }
                } else {
                    assert(a == author@ && x == id);
                    assert(start <= i < i + 1 && i < last && posts@[i as int].inner().author_id@ == a && posts@[i as int].inner().id == x);
                }
            }
        }
        i += 1;
    }
    StateVersion::V3 { done: last == total, migrated_count: last }
}

} // verus!
