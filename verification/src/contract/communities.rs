//! Communities and add-ons.
use super::{Contract, ContractError, Env};
use crate::access_control::rules::strings_view;
use crate::account::{valid_account_id, AccountId};
use crate::community::{
    addons_view, community_account_of, community_error, fields_error, community_factory_of, community_view, discussions_account_of,
    get_devhub_community_account, get_devhub_community_factory, get_devhub_discussions_account, opt_text, AddOn,
    AddOnView, Community, CommunityAddOn, CommunityAddOnView, CommunityInputs, CommunityMetadata,
    CommunityPermissions, CommunityView, FeaturedCommunity, addon_error, CREATE_COMMUNITY_BALANCE,
    CREATE_COMMUNITY_GAS, CREATE_DISCUSSION_GAS, DELETE_COMMUNITY_GAS, SET_COMMUNITY_SOCIALDB_GAS,
    UPDATE_COMMUNITY_GAS,
};
use crate::notify::{social_db_contract, social_db_account_of};
use crate::text::{decimal, str_eq, u64_to_decimal};
use vstd::prelude::*;

verus! {

/// The add-ons every new community starts with: announcements and discussions.
pub open spec fn default_addons() -> Seq<CommunityAddOnView> {
    seq![
        CommunityAddOnView {
            id: "announcements"@,
            addon_id: "announcements"@,
            display_name: "Announcements"@,
            enabled: true,
            parameters: ""@,
        },
        CommunityAddOnView {
            id: "discussions"@,
            addon_id: "discussions"@,
            display_name: "Discussions"@,
            enabled: true,
            parameters: ""@,
        },
    ]
}

fn default_community_addons() -> (r: Vec<CommunityAddOn>)
    ensures
        addons_view(r@) == default_addons(),
{
    let r = vec![
        CommunityAddOn {
            id: String::from_str("announcements"),
            addon_id: String::from_str("announcements"),
            display_name: String::from_str("Announcements"),
            enabled: true,
            parameters: String::from_str(""),
        },
        CommunityAddOn {
            id: String::from_str("discussions"),
            addon_id: String::from_str("discussions"),
            display_name: String::from_str("Discussions"),
            enabled: true,
            parameters: String::from_str(""),
        },
    ];
    assert(addons_view(r@) =~= default_addons());
    r
}

/// The community made from the inputs: no admins yet, no links, the default add-ons.
pub open spec fn community_from_inputs(i: CommunityInputs) -> CommunityView {
    CommunityView {
        admins: Seq::empty(),
        handle: i.handle@,
        name: i.name@,
        tag: i.tag@,
        description: i.description@,
        logo_url: i.logo_url@,
        banner_url: i.banner_url@,
        bio_markdown: opt_text(i.bio_markdown),
        github_handle: None,
        telegram_handle: None,
        twitter_handle: None,
        website_url: None,
        addons: default_addons(),
    }
}

/// A community view with the given admin when it has none.
pub open spec fn with_default_admin(v: CommunityView, admin: Seq<char>) -> CommunityView {
    if v.admins.len() == 0 {
        CommunityView { admins: seq![admin], ..v }
    } else {
        v
    }
}

/// An add-on reads back as it was last created or updated.
pub proof fn law_addon_read_after_write(before: Contract, after: Contract, addon: AddOn)
    requires
        after.available_addons.map() == before.available_addons.map().insert(addon.id@, addon),
    ensures
        after.available_addons.map().dom().contains(addon.id@),
        after.available_addons.map()[addon.id@] == addon,
{
}

/// A created community reads back with the fields it was created with, the
/// default add-ons and its creator as its only admin; the other communities
/// read back as before.
pub proof fn law_community_read_after_create(before: Contract, after: Contract, inputs: CommunityInputs, creator: Seq<char>)
    requires
        after.communities.map().dom() == before.communities.map().dom().insert(inputs.handle@),
        forall|h: Seq<char>| before.communities.map().dom().contains(h) ==> #[trigger] after.communities.map()[h]
            == before.communities.map()[h],
        community_view(after.communities.map()[inputs.handle@]) == with_default_admin(
            community_from_inputs(inputs),
            creator,
        ),
    ensures
        after.communities.map().dom().contains(inputs.handle@),
        community_view(after.communities.map()[inputs.handle@]).admins == seq![creator],
        community_view(after.communities.map()[inputs.handle@]).name == inputs.name@,
        community_view(after.communities.map()[inputs.handle@]).description == inputs.description@,
        community_view(after.communities.map()[inputs.handle@]).addons == default_addons(),
{
}

/// A stored community always has an admin, so storing again what was read back
/// keeps it as it was.
pub proof fn law_update_with_read_back(v: CommunityView, caller: Seq<char>)
    ensures
        with_default_admin(v, caller).admins.len() >= 1,
        with_default_admin(with_default_admin(v, caller), caller) == with_default_admin(v, caller),
{
}

/// The metadata shows the community's admins, name, tag, description, images and bio.
pub open spec fn metadata_of(m: CommunityMetadata, c: Community) -> bool {
    &&& strings_view(m.admins@) == strings_view(c.admins@)
    &&& m.name@ == c.name@
    &&& m.tag@ == c.tag@
    &&& m.description@ == c.description@
    &&& m.logo_url@ == c.logo_url@
    &&& m.banner_url@ == c.banner_url@
    &&& opt_text(m.bio_markdown) == opt_text(c.bio_markdown)
}

/// The first reason for which `create_community` refuses, if any.
pub open spec fn create_community_error(c: Contract, env: Env, inputs: CommunityInputs) -> Option<ContractError> {
    let invalid = fields_error(inputs.handle@, inputs.name@, inputs.tag@, inputs.description@, opt_text(inputs.bio_markdown));
    if c.communities.map().dom().contains(inputs.handle@) {
        Some(ContractError::CommunityAlreadyExists)
    } else if env.attached_deposit < CREATE_COMMUNITY_BALANCE {
        Some(ContractError::InsufficientDeposit)
    } else if env.prepaid_gas < CREATE_COMMUNITY_GAS {
        Some(ContractError::InsufficientGas)
    } else if invalid is Some {
        Some(ContractError::InvalidCommunity(invalid->0))
    } else {
        None
    }
}

/// A call to the community factory to create the community's account.
pub struct CreateCommunityAccount {
    pub factory: AccountId,
    pub handle: String,
    pub deposit: u128,
}

/// The profile written to the social database for a community account.
pub struct SocialProfile {
    pub account: String,
    pub name: String,
    pub image_url: String,
    pub twitter: Option<String>,
    pub github: Option<String>,
    pub telegram: Option<String>,
    pub website: String,
    pub description: String,
    pub background_url: String,
    /// Tag names; each maps to an empty value.
    pub tags: Vec<String>,
}

/// The write of both profiles of a community (its own and its discussions') to the social database.
pub struct CommunityProfiles {
    pub social_db: AccountId,
    pub community: SocialProfile,
    pub discussions: SocialProfile,
}

pub open spec fn community_page_link(handle: Seq<char>) -> Seq<char> {
    "/devhub.near/widget/app?page=community&handle="@ + handle
}

pub open spec fn learn_more(text: Seq<char>, handle: Seq<char>) -> Seq<char> {
    text + "\n\nLearn more about our community [on DevHub]("@ + community_page_link(handle) + ")."@
}

/// The profiles that describe a community in the social database.
pub open spec fn profiles_of(p: CommunityProfiles, env: Env, v: CommunityView) -> bool {
    let website = "near.social"@ + community_page_link(v.handle);
    &&& p.social_db@ == social_db_account_of(env.current@)
    &&& p.community.account@ == community_account_of(v.handle, env.current@)
    &&& p.community.name@ == v.name
    &&& p.community.image_url@ == v.logo_url
    &&& opt_text(p.community.twitter) == v.twitter_handle
    &&& opt_text(p.community.github) == v.github_handle
    &&& opt_text(p.community.telegram) == v.telegram_handle
    &&& p.community.website@ == website
    &&& p.community.description@ == learn_more(
        match v.bio_markdown {
            Some(b) => b,
            None => v.description,
        },
        v.handle,
    )
    &&& p.community.background_url@ == v.banner_url
    &&& strings_view(p.community.tags@) == seq!["community"@, "announcements"@, v.handle]
    &&& p.discussions.account@ == discussions_account_of(v.handle, env.current@)
    &&& p.discussions.name@ == v.name + " (Community Discussions)"@
    &&& p.discussions.image_url@ == v.logo_url
    &&& opt_text(p.discussions.twitter) == v.twitter_handle
    &&& opt_text(p.discussions.github) == v.github_handle
    &&& opt_text(p.discussions.telegram) == v.telegram_handle
    &&& p.discussions.website@ == website
    &&& p.discussions.description@ == learn_more(v.description, v.handle)
    &&& p.discussions.background_url@ == v.banner_url
    &&& strings_view(p.discussions.tags@) == seq!["community"@, "discussions"@, v.handle]
}

/// The profile of a community's announcement account introduces the community
/// by its bio when it has one and by its description otherwise, and ends with a
/// link to its page on DevHub; the discussions account always uses the description.
pub proof fn law_profile_introduction(p: CommunityProfiles, env: Env, v: CommunityView)
    requires
        profiles_of(p, env, v),
    ensures
        ({
            let more = "\n\nLearn more about our community [on DevHub](/devhub.near/widget/app?page=community&handle="@
                + v.handle + ")."@;
            &&& v.bio_markdown matches Some(b) ==> p.community.description@ == b + more
            &&& v.bio_markdown is None ==> p.community.description@ == v.description + more
            &&& p.discussions.description@ == v.description + more
            &&& p.community.name@ == v.name
            &&& p.community.image_url@ == v.logo_url && p.discussions.image_url@ == v.logo_url
            &&& p.community.background_url@ == v.banner_url && p.discussions.background_url@ == v.banner_url
        }),
{
    let lit = "\n\nLearn more about our community [on DevHub](/devhub.near/widget/app?page=community&handle=";
    let a = "\n\nLearn more about our community [on DevHub](";
    let b = "/devhub.near/widget/app?page=community&handle=";
    reveal_strlit("\n\nLearn more about our community [on DevHub](/devhub.near/widget/app?page=community&handle=");
    reveal_strlit("\n\nLearn more about our community [on DevHub](");
    reveal_strlit("/devhub.near/widget/app?page=community&handle=");
    assert(lit@ =~= a@ + b@);
    let more = lit@ + v.handle + ")."@;
    assert forall|t: Seq<char>| #[trigger] learn_more(t, v.handle) == t + more by {
        assert(learn_more(t, v.handle) =~= t + more);
    }
}

/// The caller may configure the community: one of its admins or a moderator.
pub open spec fn can_configure(c: Contract, account: Seq<char>, community: Community) -> bool {
    strings_view(community.admins@).contains(account) || c.moderator(account)
}

/// The first reason for which `update_community` refuses to store a community
/// with content `v` under `handle`, if any.
pub open spec fn update_community_error(c: Contract, env: Env, handle: Seq<char>, v: CommunityView) -> Option<ContractError> {
    let invalid = fields_error(v.handle, v.name, v.tag, v.description, v.bio_markdown);
    if !c.communities.map().dom().contains(handle) {
        Some(ContractError::CommunityNotFound)
    } else if !can_configure(c, env.predecessor@, c.communities.map()[handle]) {
        Some(ContractError::OnlyCommunityAdmins)
    } else if invalid is Some {
        Some(ContractError::InvalidCommunity(invalid->0))
    } else if v.handle != handle {
        Some(ContractError::HandleChanged)
    } else if env.prepaid_gas < UPDATE_COMMUNITY_GAS {
        Some(ContractError::InsufficientGas)
    } else {
        None
    }
}

/// The index writes that announce a discussion post in a community.
pub struct DiscussionIndex {
    pub social_db: AccountId,
    pub account: String,
    pub repost: String,
    pub notify: String,
}

pub open spec fn discussion_repost_of(initiator: Seq<char>, block_height: Seq<char>) -> Seq<char> {
    "[{\"key\":\"main\",\"value\":{\"type\":\"repost\",\"item\":{\"type\":\"social\",\"path\":\""@ + initiator
        + "/post/main\",\"blockHeight\":"@ + block_height
        + "}}},{\"key\":{\"type\":\"social\",\"path\":\""@ + initiator + "/post/main\",\"blockHeight\":"@
        + block_height + "},\"value\":{\"type\":\"repost\"}}]"@
}

pub open spec fn discussion_notify_of(initiator: Seq<char>, block_height: Seq<char>) -> Seq<char> {
    "{\"key\":\""@ + initiator + "\",\"value\":{\"type\":\"repost\",\"item\":{\"type\":\"social\",\"path\":\""@
        + initiator + "/post/main\",\"blockHeight\":"@ + block_height + "}}}"@
}

impl Contract {
    pub fn get_community(&self, handle: &String) -> (r: Option<&Community>)
        requires
            self.wf(),
        ensures
            match r {
                Some(c) => self.communities.map().dom().contains(handle@) && *c == self.communities.map()[handle@],
                None => !self.communities.map().dom().contains(handle@),
            },
    {
        match self.communities.find(handle) {
            Some(i) => {
                proof {
                    self.communities.lemma_lookup(i as int);
                }
                Some(&self.communities.entries[i].1)
            },
            None => None,
        }
    }

    /// Creates a community from the inputs, with the caller as its admin and the
    /// default add-ons; the community factory then creates its account.
    pub fn create_community(&mut self, env: &Env, inputs: CommunityInputs) -> (r: Result<CreateCommunityAccount, ContractError>)
        requires
            old(self).wf(),
            valid_account_id(community_factory_of(env.current@)),
        ensures
            final(self).wf(),
            r is Err ==> *final(self) == *old(self),
            r matches Ok(call) ==> {
                &&& final(self).communities.map().dom() == old(self).communities.map().dom().insert(inputs.handle@)
                &&& forall|h: Seq<char>| old(self).communities.map().dom().contains(h) ==> #[trigger] final(self).communities.map()[h]
                    == old(self).communities.map()[h]
                &&& community_view(final(self).communities.map()[inputs.handle@]) == with_default_admin(
                    community_from_inputs(inputs),
                    env.predecessor@,
                )
                &&& call.factory@ == community_factory_of(env.current@)
                &&& call.handle@ == inputs.handle@
                &&& call.deposit == CREATE_COMMUNITY_BALANCE
                &&& final(self).posts == old(self).posts
                &&& final(self).proposals == old(self).proposals
                &&& final(self).rfps == old(self).rfps
                &&& final(self).access_control == old(self).access_control
                &&& final(self).available_addons == old(self).available_addons
            },
            r is Err <==> create_community_error(*old(self), *env, inputs) is Some,
            r matches Err(e) ==> create_community_error(*old(self), *env, inputs) == Some(e),
    {
        if self.get_community(&inputs.handle).is_some() {
            return Err(ContractError::CommunityAlreadyExists);
        }
        if env.attached_deposit < CREATE_COMMUNITY_BALANCE {
            return Err(ContractError::InsufficientDeposit);
        }
        if env.prepaid_gas < CREATE_COMMUNITY_GAS {
            return Err(ContractError::InsufficientGas);
        }
        let ghost gi = inputs;
        let mut community = Community {
            admins: Vec::new(),
            handle: inputs.handle,
            name: inputs.name,
            tag: inputs.tag,
            description: inputs.description,
            logo_url: inputs.logo_url,
            banner_url: inputs.banner_url,
            bio_markdown: inputs.bio_markdown,
            github_handle: None,
            telegram_handle: None,
            twitter_handle: None,
            website_url: None,
            addons: default_community_addons(),
        };
        match community.validate() {
            Err(e) => {
                return Err(ContractError::InvalidCommunity(e));
            },
            Ok(()) => {},
        }
        community.set_default_admin(env.predecessor.clone());
        proof {
            assert(community_view(community) =~= with_default_admin(community_from_inputs(gi), env.predecessor@));
        }
        let handle = community.handle.clone();
        let call = CreateCommunityAccount {
            factory: get_devhub_community_factory(env.current.as_str()),
            handle: handle.clone(),
            deposit: CREATE_COMMUNITY_BALANCE,
        };
        self.communities.insert(handle, community);
        proof {
            assert(self.communities.map().dom() =~= old(self).communities.map().dom().insert(gi.handle@));
        }
        Ok(call)
    }
}

/// What updating the community under `handle` to content `v` leads to.
pub open spec fn update_community_outcome(
    old: Contract,
    new: Contract,
    env: Env,
    handle: Seq<char>,
    v: CommunityView,
    r: Result<CommunityProfiles, ContractError>,
) -> bool {
    let err = update_community_error(old, env, handle, v);
    &&& r is Err <==> err is Some
    &&& r matches Err(e) ==> err == Some(e) && new == old
    &&& r matches Ok(p) ==> {
        &&& new.communities.map().dom() == old.communities.map().dom()
        &&& forall|h: Seq<char>| old.communities.map().dom().contains(h) && h != handle ==> #[trigger] new.communities.map()[h]
            == old.communities.map()[h]
        &&& community_view(new.communities.map()[handle]) == with_default_admin(v, env.predecessor@)
        &&& profiles_of(p, env, v)
        &&& new.posts == old.posts
        &&& new.proposals == old.proposals
        &&& new.rfps == old.rfps
        &&& new.access_control == old.access_control
        &&& new.available_addons == old.available_addons
        &&& new.featured_communities == old.featured_communities
    }
}

/// The index of the first add-on with the given id, if any.
pub open spec fn first_addon_with_id(s: Seq<CommunityAddOnView>, id: Seq<char>) -> Option<int> {
    if exists|i: int| 0 <= i < s.len() && s[i].id == id {
        Some(choose|i: int| 0 <= i < s.len() && s[i].id == id && forall|j: int| 0 <= j < i ==> s[j].id != id)
    } else {
        None
    }
}

/// The add-ons after setting `a`: it replaces the first add-on with its id, or
/// is appended when there is none.
pub open spec fn addons_after_set(s: Seq<CommunityAddOnView>, a: CommunityAddOnView) -> Seq<CommunityAddOnView> {
    match first_addon_with_id(s, a.id) {
        Some(i) => s.update(i, a),
        None => s.push(a),
    }
}

/// The handles of the featured communities that exist, in order.
pub open spec fn existing_featured(c: Contract, f: Seq<FeaturedCommunity>) -> Seq<Seq<char>> {
    f.map_values(|x: FeaturedCommunity| x.handle@).filter(|h: Seq<char>| c.communities.map().dom().contains(h))
}

/// The position of the first add-on with the given id, or the number of add-ons when none has it.
fn addon_position(addons: &Vec<CommunityAddOn>, id: &String) -> (r: usize)
    ensures
        r <= addons@.len(),
        r < addons@.len() ==> first_addon_with_id(addons_view(addons@), id@) == Some(r as int),
        r == addons@.len() ==> first_addon_with_id(addons_view(addons@), id@) is None,
{
    let ghost s = addons_view(addons@);
    let mut i: usize = 0;
    while i < addons.len()
        invariant
            i <= addons@.len(),
            s == addons_view(addons@),
            forall|j: int| 0 <= j < i ==> s[j].id != id@,
        decreases addons@.len() - i,
    {
        if str_eq(addons[i].id.as_str(), id.as_str()) {
            proof {
                assert(s[i as int].id == id@);
                let k = choose|k: int| 0 <= k < s.len() && s[k].id == id@ && forall|j: int| 0 <= j < k ==> s[j].id != id@;
                if k > i {
                    assert(s[i as int].id != id@);
                }
            }
            return i;
        }
        i += 1;
    }
    i
}

/// A call to a community's account to remove it.
pub struct DestroyCommunity {
    pub account: AccountId,
}

fn text2(prefix: &str, rest: &str) -> (r: String)
    ensures
        r@ == prefix@ + rest@,
{
    let mut s = String::from_str(prefix);
    s.append(rest);
    s
}

fn text_with(prefix: &str, middle: &str, suffix: &str) -> (r: String)
    ensures
        r@ == prefix@ + middle@ + suffix@,
{
    let mut s = String::from_str(prefix);
    s.append(middle);
    s.append(suffix);
    s
}

fn profile_tags(kind: &str, handle: &String) -> (r: Vec<String>)
    ensures
        strings_view(r@) == seq!["community"@, kind@, handle@],
{
    let r = vec![String::from_str("community"), String::from_str(kind), handle.clone()];
    assert(strings_view(r@) =~= seq!["community"@, kind@, handle@]);
    r
}

fn clone_opt(o: &Option<String>) -> (r: Option<String>)
    ensures
        opt_text(r) == opt_text(*o),
{
    crate::community::clone_opt_text(o)
}

/// The social profiles that describe a community.
fn build_profiles(env: &Env, c: &Community) -> (r: CommunityProfiles)
    requires
        valid_account_id(community_factory_of(env.current@)),
    ensures
        profiles_of(r, *env, community_view(*c)),
{
    let link = text2("/devhub.near/widget/app?page=community&handle=", c.handle.as_str());
    let website = text2("near.social", link.as_str());
    let intro = match &c.bio_markdown {
        Some(b) => b.clone(),
        None => c.description.clone(),
    };
    let mut description = text_with(intro.as_str(), "\n\nLearn more about our community [on DevHub](", link.as_str());
    description.append(").");
    let mut discussions_description = text_with(
        c.description.as_str(),
        "\n\nLearn more about our community [on DevHub](",
        link.as_str(),
    );
    discussions_description.append(").");
    let community = SocialProfile {
        account: get_devhub_community_account(&c.handle, env.current.as_str()),
        name: c.name.clone(),
        image_url: c.logo_url.clone(),
        twitter: clone_opt(&c.twitter_handle),
        github: clone_opt(&c.github_handle),
        telegram: clone_opt(&c.telegram_handle),
        website: website.clone(),
        description,
        background_url: c.banner_url.clone(),
        tags: profile_tags("announcements", &c.handle),
    };
    let discussions = SocialProfile {
        account: get_devhub_discussions_account(&c.handle, env.current.as_str()),
        name: text2(c.name.as_str(), " (Community Discussions)"),
        image_url: c.logo_url.clone(),
        twitter: clone_opt(&c.twitter_handle),
        github: clone_opt(&c.github_handle),
        telegram: clone_opt(&c.telegram_handle),
        website,
        description: discussions_description,
        background_url: c.banner_url.clone(),
        tags: profile_tags("discussions", &c.handle),
    };
    let r = CommunityProfiles { social_db: social_db_contract(env.current.as_str()), community, discussions };
    proof {
        assert(r.community.website@ =~= "near.social"@ + community_page_link(c.handle@));
        assert(r.discussions.name@ =~= c.name@ + " (Community Discussions)"@);
    }
    r
}

impl Contract {
    /// The metadata of the community under `handle`, if any.
    pub fn get_community_metadata(&self, handle: &String) -> (r: Option<CommunityMetadata>)
        requires
            self.wf(),
        ensures
            r is Some <==> self.communities.map().dom().contains(handle@),
            r matches Some(m) ==> ({
                let c = self.communities.map()[handle@];
                &&& strings_view(m.admins@) == strings_view(c.admins@)
                &&& m.handle@ == c.handle@
                &&& m.name@ == c.name@
                &&& m.tag@ == c.tag@
                &&& m.description@ == c.description@
                &&& m.logo_url@ == c.logo_url@
                &&& m.banner_url@ == c.banner_url@
                &&& opt_text(m.bio_markdown) == opt_text(c.bio_markdown)
            }),
    {
        match self.get_community(handle) {
            Some(c) => Some(c.metadata()),
            None => None,
        }
    }

    /// What `account_id` may do with the community: configure it as one of its
    /// admins or a moderator, delete it as a moderator.
    pub fn get_account_community_permissions(&self, account_id: AccountId, community_handle: &String) -> (r: CommunityPermissions)
        requires
            self.wf(),
            self.communities.map().dom().contains(community_handle@),
        ensures
            r.can_configure == can_configure(*self, account_id@, self.communities.map()[community_handle@]),
            r.can_delete == self.moderator(account_id@),
    {
        let community = self.get_community(community_handle).unwrap();
        let is_admin = super::labels::has_label(&community.admins, &account_id);
        let moderator = self.has_moderator(account_id);
        CommunityPermissions { can_configure: is_admin || moderator, can_delete: moderator }
    }

    /// The metadata of every community, in storage order, each under its key.
    pub fn get_all_communities_metadata(&self) -> (r: Vec<CommunityMetadata>)
        requires
            self.wf(),
        ensures
            r@.len() == self.communities.entries@.len(),
            forall|i: int| 0 <= i < r@.len() ==> (#[trigger] r@[i]).handle@ == self.communities.entries@[i].0@
                && metadata_of(r@[i], self.communities.entries@[i].1),
    {
        let mut r: Vec<CommunityMetadata> = Vec::new();
        let mut i: usize = 0;
        while i < self.communities.entries.len()
            invariant
                i <= self.communities.entries@.len(),
                r@.len() == i,
                forall|j: int| 0 <= j < i ==> (#[trigger] r@[j]).handle@ == self.communities.entries@[j].0@
                    && metadata_of(r@[j], self.communities.entries@[j].1),
            decreases self.communities.entries@.len() - i,
        {
            let mut m = self.communities.entries[i].1.metadata();
            m.handle = self.communities.entries[i].0.clone();
            r.push(m);
            i += 1;
        }
        r
    }

    pub fn get_addon(&self, id: &String) -> (r: Option<&AddOn>)
        requires
            self.wf(),
        ensures
            match r {
                Some(a) => self.available_addons.map().dom().contains(id@) && *a == self.available_addons.map()[id@],
                None => !self.available_addons.map().dom().contains(id@),
            },
    {
        match self.available_addons.find(id) {
            Some(i) => {
                proof {
                    self.available_addons.lemma_lookup(i as int);
                }
                Some(&self.available_addons.entries[i].1)
            },
            None => None,
        }
    }

    /// Every available add-on, in storage order.
    pub fn get_all_addons(&self) -> (r: Vec<&AddOn>)
        ensures
            r@.len() == self.available_addons.entries@.len(),
            forall|i: int| 0 <= i < r@.len() ==> *(#[trigger] r@[i]) == self.available_addons.entries@[i].1,
    {
        let mut r: Vec<&AddOn> = Vec::new();
        let mut i: usize = 0;
        while i < self.available_addons.entries.len()
            invariant
                i <= self.available_addons.entries@.len(),
                r@.len() == i,
                forall|j: int| 0 <= j < i ==> *(#[trigger] r@[j]) == self.available_addons.entries@[j].1,
            decreases self.available_addons.entries@.len() - i,
        {
            r.push(&self.available_addons.entries[i].1);
            i += 1;
        }
        r
    }

    /// Adds a new add-on; only the contract itself and moderators may.
    pub fn create_addon(&mut self, env: &Env, addon: AddOn) -> (r: Result<(), ContractError>)
        requires
            old(self).wf(),
        ensures
            final(self).wf(),
            !old(self).admin_or_moderator(*env) ==> r == Err::<(), ContractError>(ContractError::OnlyModeratorsOrAdmin),
            old(self).admin_or_moderator(*env) && old(self).available_addons.map().dom().contains(addon.id@) ==> r
                == Err::<(), ContractError>(ContractError::AddOnAlreadyExists),
            old(self).admin_or_moderator(*env) && !old(self).available_addons.map().dom().contains(addon.id@) ==> (match addon_error(addon) {
                Some(e) => r == Err::<(), ContractError>(ContractError::InvalidAddOn(e)),
                None => r is Ok,
            }),
            r is Err ==> *final(self) == *old(self),
            r is Ok ==> final(self).available_addons.map() == old(self).available_addons.map().insert(addon.id@, addon)
                && final(self).communities == old(self).communities && final(self).posts == old(self).posts
                && final(self).access_control == old(self).access_control,
    {
        if !(self.has_moderator(env.predecessor.clone()) || env.predecessor == env.current) {
            return Err(ContractError::OnlyModeratorsOrAdmin);
        }
        if self.get_addon(&addon.id).is_some() {
            return Err(ContractError::AddOnAlreadyExists);
        }
        match addon.validate() {
            Err(e) => {
                return Err(ContractError::InvalidAddOn(e));
            },
            Ok(()) => {},
        }
        let key = addon.id.clone();
        self.available_addons.insert(key, addon);
        Ok(())
    }

    /// Removes an add-on; only the contract itself and moderators may.
    pub fn delete_addon(&mut self, env: &Env, id: &String) -> (r: Result<(), ContractError>)
        requires
            old(self).wf(),
        ensures
            final(self).wf(),
            !old(self).admin_or_moderator(*env) ==> r == Err::<(), ContractError>(ContractError::OnlyModeratorsOrAdmin),
            old(self).admin_or_moderator(*env) ==> (r is Ok <==> old(self).available_addons.map().dom().contains(id@)),
            old(self).admin_or_moderator(*env) && !old(self).available_addons.map().dom().contains(id@) ==> r
                == Err::<(), ContractError>(ContractError::AddOnNotFound),
            r is Err ==> *final(self) == *old(self),
            r is Ok ==> final(self).available_addons.map() == old(self).available_addons.map().remove(id@)
                && final(self).communities == old(self).communities && final(self).posts == old(self).posts
                && final(self).access_control == old(self).access_control,
    {
        if !(self.has_moderator(env.predecessor.clone()) || env.predecessor == env.current) {
            return Err(ContractError::OnlyModeratorsOrAdmin);
        }
        if self.get_addon(id).is_none() {
            return Err(ContractError::AddOnNotFound);
        }
        self.available_addons.remove(id);
        Ok(())
    }

    /// Sets an add-on, new or not; only the contract itself and moderators may.
    pub fn update_addon(&mut self, env: &Env, addon: AddOn) -> (r: Result<(), ContractError>)
        requires
            old(self).wf(),
        ensures
            final(self).wf(),
            r is Ok <==> old(self).admin_or_moderator(*env),
            r is Err ==> *final(self) == *old(self) && r == Err::<(), ContractError>(ContractError::OnlyModeratorsOrAdmin),
            r is Ok ==> final(self).available_addons.map() == old(self).available_addons.map().insert(addon.id@, addon)
                && final(self).communities == old(self).communities && final(self).posts == old(self).posts
                && final(self).access_control == old(self).access_control,
    {
        if !(self.has_moderator(env.predecessor.clone()) || env.predecessor == env.current) {
            return Err(ContractError::OnlyModeratorsOrAdmin);
        }
        let key = addon.id.clone();
        self.available_addons.insert(key, addon);
        Ok(())
    }

    /// The add-ons of the community under `handle`.
    pub fn get_community_addons(&self, handle: &String) -> (r: &Vec<CommunityAddOn>)
        requires
            self.wf(),
            self.communities.map().dom().contains(handle@),
        ensures
            *r == self.communities.map()[handle@].addons,
    {
        &self.get_community(handle).unwrap().addons
    }

    /// Stores a new version of a community, configured by one of its admins or a
    /// moderator; its profiles in the social database are rewritten.
    pub fn update_community(&mut self, env: &Env, handle: String, community: Community) -> (r: Result<CommunityProfiles, ContractError>)
        requires
            old(self).wf(),
            valid_account_id(community_factory_of(env.current@)),
        ensures
            final(self).wf(),
            update_community_outcome(*old(self), *final(self), *env, handle@, community_view(community), r),
    {
        let allowed = match self.get_community(&handle) {
            None => {
                return Err(ContractError::CommunityNotFound);
            },
            Some(_) => self.get_account_community_permissions(env.predecessor.clone(), &handle).can_configure,
        };
        if !allowed {
            return Err(ContractError::OnlyCommunityAdmins);
        }
        let ghost gv = community_view(community);
        let mut community = community;
        match community.validate() {
            Err(e) => {
                return Err(ContractError::InvalidCommunity(e));
            },
            Ok(()) => {},
        }
        community.set_default_admin(env.predecessor.clone());
        if !str_eq(community.handle.as_str(), handle.as_str()) {
            return Err(ContractError::HandleChanged);
        }
        if env.prepaid_gas < UPDATE_COMMUNITY_GAS {
            return Err(ContractError::InsufficientGas);
        }
        proof {
            assert(community_view(community) =~= with_default_admin(gv, env.predecessor@));
        }
        let profiles = build_profiles(env, &community);
        proof {
            assert(profiles_of(profiles, *env, gv));
        }
        let ghost before = *self;
        self.communities.insert(handle, community);
        proof {
            assert(self.communities.map().dom() =~= before.communities.map().dom());
        }
        Ok(profiles)
    }

    /// Replaces a community's add-ons, as `update_community` would store it.
    pub fn set_community_addons(&mut self, env: &Env, handle: String, addons: Vec<CommunityAddOn>) -> (r: Result<CommunityProfiles, ContractError>)
        requires
            old(self).wf(),
            valid_account_id(community_factory_of(env.current@)),
        ensures
            final(self).wf(),
            !old(self).communities.map().dom().contains(handle@) ==> r == Err::<CommunityProfiles, ContractError>(ContractError::CommunityNotFound)
                && *final(self) == *old(self),
            old(self).communities.map().dom().contains(handle@) ==> update_community_outcome(
                *old(self),
                *final(self),
                *env,
                handle@,
                CommunityView { addons: addons_view(addons@), ..community_view(old(self).communities.map()[handle@]) },
                r,
            ),
    {
        let mut community = match self.get_community(&handle) {
            None => {
                return Err(ContractError::CommunityNotFound);
            },
            Some(c) => c.deep_clone(),
        };
        community.addons = addons;
        self.update_community(env, handle, community)
    }

    /// Sets one of a community's add-ons: it replaces the first with its id, or is
    /// appended; the community is then stored as `update_community` would.
    pub fn set_community_addon(&mut self, env: &Env, handle: String, community_addon: CommunityAddOn) -> (r: Result<CommunityProfiles, ContractError>)
        requires
            old(self).wf(),
            valid_account_id(community_factory_of(env.current@)),
        ensures
            final(self).wf(),
            !old(self).communities.map().dom().contains(handle@) ==> r == Err::<CommunityProfiles, ContractError>(ContractError::CommunityNotFound)
                && *final(self) == *old(self),
            old(self).communities.map().dom().contains(handle@) ==> update_community_outcome(
                *old(self),
                *final(self),
                *env,
                handle@,
                CommunityView {
                    addons: addons_after_set(addons_view(old(self).communities.map()[handle@].addons@), community_addon@),
                    ..community_view(old(self).communities.map()[handle@])
                },
                r,
            ),
    {
        let mut community = match self.get_community(&handle) {
            None => {
                return Err(ContractError::CommunityNotFound);
            },
            Some(c) => c.deep_clone(),
        };
        let ghost orig = addons_view(community.addons@);
        let i = addon_position(&community.addons, &community_addon.id);
        let found = i < community.addons.len();
        let ghost a = community_addon@;
        if found {
            community.addons.set(i, community_addon);
            proof {
                assert(addons_view(community.addons@) =~= orig.update(i as int, a));
            }
        } else {
            proof {
                assert(first_addon_with_id(orig, a.id) is None);
            }
            community.addons.push(community_addon);
            proof {
                assert(addons_view(community.addons@) =~= orig.push(a));
            }
        }
        self.update_community(env, handle, community)
    }

    /// The community's account, to which the caller (one of its admins or a
    /// moderator) may write arbitrary social data.
    pub fn set_community_socialdb(&mut self, env: &Env, handle: String) -> (r: Result<String, ContractError>)
        requires
            old(self).wf(),
            valid_account_id(community_factory_of(env.current@)),
        ensures
            *final(self) == *old(self),
            !old(self).communities.map().dom().contains(handle@) ==> r == Err::<String, ContractError>(ContractError::CommunityNotFound),
            old(self).communities.map().dom().contains(handle@) && !can_configure(*old(self), env.predecessor@, old(self).communities.map()[handle@])
                ==> r == Err::<String, ContractError>(ContractError::OnlyCommunityAdmins),
            old(self).communities.map().dom().contains(handle@) && can_configure(*old(self), env.predecessor@, old(self).communities.map()[handle@])
                ==> (if env.prepaid_gas < SET_COMMUNITY_SOCIALDB_GAS {
                r == Err::<String, ContractError>(ContractError::InsufficientGas)
            } else {
                r matches Ok(account) && account@ == community_account_of(handle@, env.current@)
            }),
    {
        let allowed = match self.get_community(&handle) {
            None => {
                return Err(ContractError::CommunityNotFound);
            },
            Some(_) => self.get_account_community_permissions(env.predecessor.clone(), &handle).can_configure,
        };
        if !allowed {
            return Err(ContractError::OnlyCommunityAdmins);
        }
        if env.prepaid_gas < SET_COMMUNITY_SOCIALDB_GAS {
            return Err(ContractError::InsufficientGas);
        }
        Ok(get_devhub_community_account(&handle, env.current.as_str()))
    }

    /// Announces a post by the caller in the community's discussions.
    pub fn create_discussion(&mut self, env: &Env, handle: String, block_height: u64) -> (r: Result<DiscussionIndex, ContractError>)
        requires
            valid_account_id(community_factory_of(env.current@)),
        ensures
            *final(self) == *old(self),
            r is Err <==> env.prepaid_gas < CREATE_DISCUSSION_GAS,
            r is Err ==> r == Err::<DiscussionIndex, ContractError>(ContractError::InsufficientGas),
            r matches Ok(d) ==> {
                &&& d.social_db@ == social_db_account_of(env.current@)
                &&& d.account@ == discussions_account_of(handle@, env.current@)
                &&& d.repost@ == discussion_repost_of(env.predecessor@, decimal(block_height as nat))
                &&& d.notify@ == discussion_notify_of(env.predecessor@, decimal(block_height as nat))
            },
    {
        if env.prepaid_gas < CREATE_DISCUSSION_GAS {
            return Err(ContractError::InsufficientGas);
        }
        let who = env.predecessor.as_str();
        let height = u64_to_decimal(block_height);
        let h = height.as_str();
        let mut repost = String::from_str("[{\"key\":\"main\",\"value\":{\"type\":\"repost\",\"item\":{\"type\":\"social\",\"path\":\"");
        repost.append(who);
        repost.append("/post/main\",\"blockHeight\":");
        repost.append(h);
        repost.append("}}},{\"key\":{\"type\":\"social\",\"path\":\"");
        repost.append(who);
        repost.append("/post/main\",\"blockHeight\":");
        repost.append(h);
        repost.append("},\"value\":{\"type\":\"repost\"}}]");
        let mut notify = String::from_str("{\"key\":\"");
        notify.append(who);
        notify.append("\",\"value\":{\"type\":\"repost\",\"item\":{\"type\":\"social\",\"path\":\"");
        notify.append(who);
        notify.append("/post/main\",\"blockHeight\":");
        notify.append(h);
        notify.append("}}}");
        Ok(DiscussionIndex {
            social_db: social_db_contract(env.current.as_str()),
            account: get_devhub_discussions_account(&handle, env.current.as_str()),
            repost,
            notify,
        })
    }

    /// Removes a community (moderators only); its account is then asked to remove itself.
    pub fn delete_community(&mut self, env: &Env, handle: String) -> (r: Result<DestroyCommunity, ContractError>)
        requires
            old(self).wf(),
            valid_account_id(community_factory_of(env.current@)),
        ensures
            final(self).wf(),
            r is Err ==> *final(self) == *old(self),
            !old(self).moderator(env.predecessor@) ==> r == Err::<DestroyCommunity, ContractError>(ContractError::OnlyModerators),
            old(self).moderator(env.predecessor@) && !old(self).communities.map().dom().contains(handle@) ==> r
                == Err::<DestroyCommunity, ContractError>(ContractError::CommunityNotFound),
            old(self).moderator(env.predecessor@) && old(self).communities.map().dom().contains(handle@) ==> {
                let key = old(self).communities.map()[handle@].handle@;
                if env.prepaid_gas < DELETE_COMMUNITY_GAS {
                    r == Err::<DestroyCommunity, ContractError>(ContractError::InsufficientGas)
                } else if !valid_account_id(community_account_of(key, env.current@)) {
                    r == Err::<DestroyCommunity, ContractError>(ContractError::InvalidAccountId)
                } else {
                    r matches Ok(d) && d.account@ == community_account_of(key, env.current@)
                        && final(self).communities.map() == old(self).communities.map().remove(key)
                        && final(self).posts == old(self).posts && final(self).access_control == old(self).access_control
                        && final(self).available_addons == old(self).available_addons
                }
            },
    {
        if !self.has_moderator(env.predecessor.clone()) {
            return Err(ContractError::OnlyModerators);
        }
        let key = match self.get_community(&handle) {
            None => {
                return Err(ContractError::CommunityNotFound);
            },
            Some(c) => c.handle.clone(),
        };
        if env.prepaid_gas < DELETE_COMMUNITY_GAS {
            return Err(ContractError::InsufficientGas);
        }
        let account = get_devhub_community_account(&key, env.current.as_str());
        if !crate::account::is_valid_account_id(account.as_str()) {
            return Err(ContractError::InvalidAccountId);
        }
        self.communities.remove(&key);
        Ok(DestroyCommunity { account })
    }

    /// Replaces the featured communities (moderators only); every handle must name a community.
    pub fn set_featured_communities(&mut self, env: &Env, handles: Vec<String>) -> (r: Result<(), ContractError>)
        requires
            old(self).wf(),
        ensures
            final(self).wf(),
            r is Err ==> *final(self) == *old(self),
            !old(self).moderator(env.predecessor@) ==> r == Err::<(), ContractError>(ContractError::OnlyModerators),
            old(self).moderator(env.predecessor@) ==> (r is Ok <==> forall|i: int| 0 <= i < handles@.len() ==> old(self).communities.map().dom().contains(#[trigger] handles@[i]@)),
            r is Err && old(self).moderator(env.predecessor@) ==> r == Err::<(), ContractError>(ContractError::CommunityNotFound),
            r is Ok ==> final(self).featured_communities@.len() == handles@.len()
                && (forall|i: int| 0 <= i < handles@.len() ==> (#[trigger] final(self).featured_communities@[i]).handle == handles@[i])
                && final(self).communities == old(self).communities && final(self).posts == old(self).posts,
    {
        if !self.has_moderator(env.predecessor.clone()) {
            return Err(ContractError::OnlyModerators);
        }
        let mut i: usize = 0;
        while i < handles.len()
            invariant
                self.wf(),
                *self == *old(self),
                self.moderator(env.predecessor@),
                i <= handles@.len(),
                forall|j: int| 0 <= j < i ==> self.communities.map().dom().contains(#[trigger] handles@[j]@),
            decreases handles@.len() - i,
        {
            if self.get_community(&handles[i]).is_none() {
                return Err(ContractError::CommunityNotFound);
            }
            i += 1;
        }
        let mut featured: Vec<FeaturedCommunity> = Vec::new();
        let mut handles = handles;
        let ghost all = handles@;
        let mut k: usize = 0;
        let n = handles.len();
        while handles.len() > 0
            invariant
                handles@ == all.subrange(0, handles@.len() as int),
                featured@.len() + handles@.len() == all.len(),
                forall|j: int| 0 <= j < featured@.len() ==> (#[trigger] featured@[j]).handle == all[all.len() - 1 - j],
            decreases handles@.len(),
        {
            let h = handles.pop().unwrap();
            featured.push(FeaturedCommunity { handle: h });
            proof {
                assert(handles@ =~= all.subrange(0, handles@.len() as int));
            }
        }
        let mut result: Vec<FeaturedCommunity> = Vec::new();
        while featured.len() > 0
            invariant
                result@.len() + featured@.len() == all.len(),
                forall|j: int| 0 <= j < featured@.len() ==> (#[trigger] featured@[j]).handle == all[all.len() - 1 - j],
                forall|j: int| 0 <= j < result@.len() ==> (#[trigger] result@[j]).handle == all[j],
            decreases featured@.len(),
        {
            let f = featured.pop().unwrap();
            result.push(f);
        }
        self.featured_communities = result;
        Ok(())
    }

    /// The featured communities that still exist, in order.
    pub fn get_featured_communities(&self) -> (r: Vec<&Community>)
        requires
            self.wf(),
        ensures
            r@.len() == existing_featured(*self, self.featured_communities@).len(),
            forall|i: int| 0 <= i < r@.len() ==> *(#[trigger] r@[i]) == self.communities.map()[existing_featured(*self, self.featured_communities@)[i]],
    {
        let ghost all = self.featured_communities@;
        let mut r: Vec<&Community> = Vec::new();
        let mut i: usize = 0;
        while i < self.featured_communities.len()
            invariant
                self.wf(),
                all == self.featured_communities@,
                i <= all.len(),
                r@.len() == existing_featured(*self, all.subrange(0, i as int)).len(),
                forall|k: int| 0 <= k < r@.len() ==> *(#[trigger] r@[k]) == self.communities.map()[existing_featured(*self, all.subrange(0, i as int))[k]],
            decreases all.len() - i,
        {
            let ghost hs = all.subrange(0, i as int).map_values(|f: FeaturedCommunity| f.handle@);
            let ghost h = all[i as int].handle@;
            let ghost pred = |x: Seq<char>| self.communities.map().dom().contains(x);
            proof {
                assert(all.subrange(0, i + 1).map_values(|f: FeaturedCommunity| f.handle@) =~= hs.push(h));
                hs.lemma_filter_push(h, pred);
            }
            match self.get_community(&self.featured_communities[i].handle) {
                Some(c) => {
                    let ghost before = r@;
                    r.push(c);
                    proof {
                        assert forall|k: int| 0 <= k < r@.len() implies *(#[trigger] r@[k]) == self.communities.map()[existing_featured(*self, all.subrange(0, i + 1))[k]] by {
                            if k < before.len() {
                                assert(r@[k] == before[k]);
                            }
                        }
                    }
                },
                None => {},
            }
            i += 1;
        }
        proof {
            assert(all.subrange(0, all.len() as int) =~= all);
        }
        r
    }
}

} // verus!
