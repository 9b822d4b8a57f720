//! Communities, their add-ons and the NEAR accounts that belong to them.
use crate::account::{is_valid_account_id, valid_account_id, AccountId};
use crate::text::str_eq;
use vstd::prelude::*;

verus! {

pub type CommunityHandle = String;

pub type AddOnId = String;

pub struct CommunityInputs {
    pub handle: CommunityHandle,
    pub name: String,
    pub tag: String,
    pub description: String,
    pub logo_url: String,
    pub banner_url: String,
    pub bio_markdown: Option<String>,
}

pub struct CommunityMetadata {
    pub admins: Vec<AccountId>,
    pub handle: CommunityHandle,
    pub name: String,
    pub tag: String,
    pub description: String,
    pub logo_url: String,
    pub banner_url: String,
    pub bio_markdown: Option<String>,
}

#[derive(Clone, Copy, PartialEq, Eq, Structural)]
pub struct CommunityFeatureFlags {
    pub telegram: bool,
    pub github: bool,
    pub board: bool,
    pub wiki: bool,
}

pub struct WikiPage {
    pub name: String,
    pub content_markdown: String,
}

pub struct CommunityAddOn {
    pub id: String,
    pub addon_id: AddOnId,
    pub display_name: String,
    pub enabled: bool,
    pub parameters: String,
}

/// The content of a community add-on, field by field.
pub struct CommunityAddOnView {
    pub id: Seq<char>,
    pub addon_id: Seq<char>,
    pub display_name: Seq<char>,
    pub enabled: bool,
    pub parameters: Seq<char>,
}

impl View for CommunityAddOn {
    type V = CommunityAddOnView;

    open spec fn view(&self) -> CommunityAddOnView {
        CommunityAddOnView {
            id: self.id@,
            addon_id: self.addon_id@,
            display_name: self.display_name@,
            enabled: self.enabled,
            parameters: self.parameters@,
        }
    }
}

impl Clone for CommunityAddOn {
    fn clone(&self) -> (r: Self)
        ensures
            r@ == self@,
    {
        CommunityAddOn {
            id: self.id.clone(),
            addon_id: self.addon_id.clone(),
            display_name: self.display_name.clone(),
            enabled: self.enabled,
            parameters: self.parameters.clone(),
        }
    }
}

impl CommunityAddOn {
    /// Field-by-field equality.
    pub fn same_as(&self, other: &CommunityAddOn) -> (r: bool)
        ensures
            r == (self@ == other@),
    {
        str_eq(self.id.as_str(), other.id.as_str()) && str_eq(self.addon_id.as_str(), other.addon_id.as_str())
            && str_eq(self.display_name.as_str(), other.display_name.as_str()) && self.enabled
            == other.enabled && str_eq(self.parameters.as_str(), other.parameters.as_str())
    }
}

pub struct AddOn {
    pub id: AddOnId,
    pub title: String,
    pub description: String,
    pub icon: String,
    /// The path to the view on the community page.
    pub view_widget: String,
    /// The path to the view on the community configuration page.
    pub configurator_widget: String,
}

/// Why an add-on description was refused.
#[derive(Debug, Clone, Copy, PartialEq, Eq, Structural)]
pub enum AddOnError {
    IdLength,
    TitleLength,
    DescriptionLength,
    ViewerLength,
    ConfiguratorLength,
    IconLength,
}

impl AddOnError {
    /// The text of the message.
    pub open spec fn message_text(&self) -> Seq<char> {
        match self {
            AddOnError::IdLength => "Add-on id must contain 3 to 120 characters"@,
            AddOnError::TitleLength => "Add-on title must contain 3 to 120 characters"@,
            AddOnError::DescriptionLength => "Add-on description must contain 3 to 120 characters"@,
            AddOnError::ViewerLength => "Add-on viewer must contain 6 to 240 characters"@,
            AddOnError::ConfiguratorLength => "Add-on configurator must contain 0 to 240 characters"@,
            AddOnError::IconLength => "Add-on icon must contain 6 to 60 characters"@,
        }
    }

    pub fn message(&self) -> (r: String)
        ensures
            r@ == self.message_text(),
    {
        match self {
            AddOnError::IdLength => String::from_str("Add-on id must contain 3 to 120 characters"),
            AddOnError::TitleLength => String::from_str("Add-on title must contain 3 to 120 characters"),
            AddOnError::DescriptionLength => String::from_str(
                "Add-on description must contain 3 to 120 characters",
            ),
            AddOnError::ViewerLength => String::from_str("Add-on viewer must contain 6 to 240 characters"),
            AddOnError::ConfiguratorLength => String::from_str(
                "Add-on configurator must contain 0 to 240 characters",
            ),
            AddOnError::IconLength => String::from_str("Add-on icon must contain 6 to 60 characters"),
        }
    }
}

/// The number of characters of `s` lies in `lo..=hi`.
pub open spec fn len_within(s: Seq<char>, lo: int, hi: int) -> bool {
    lo <= s.len() <= hi
}

/// The first rule that an add-on breaks, in the order they are checked.
pub open spec fn addon_error(a: AddOn) -> Option<AddOnError> {
    if !len_within(a.id@, 3, 120) {
        Some(AddOnError::IdLength)
    } else if !len_within(a.title@, 3, 120) {
        Some(AddOnError::TitleLength)
    } else if !len_within(a.description@, 3, 120) {
        Some(AddOnError::DescriptionLength)
    } else if !len_within(a.view_widget@, 6, 240) {
        Some(AddOnError::ViewerLength)
    } else if !len_within(a.configurator_widget@, 0, 240) {
        Some(AddOnError::ConfiguratorLength)
    } else if !len_within(a.icon@, 6, 60) {
        Some(AddOnError::IconLength)
    } else {
        None
    }
}

fn char_count_within(s: &String, lo: usize, hi: usize) -> (r: bool)
    ensures
        r == len_within(s@, lo as int, hi as int),
{
    let n = s.as_str().unicode_len();
    lo <= n && n <= hi
}

impl AddOn {
    /// Checks the lengths of the add-on's fields; the error names the first one out of range.
    pub fn validate(&self) -> (r: Result<(), AddOnError>)
        ensures
            match r {
                Ok(()) => addon_error(*self) is None,
                Err(e) => addon_error(*self) == Some(e),
            },
    {
        if !char_count_within(&self.id, 3, 120) {
            return Err(AddOnError::IdLength);
        }
        if !char_count_within(&self.title, 3, 120) {
            return Err(AddOnError::TitleLength);
        }
        if !char_count_within(&self.description, 3, 120) {
            return Err(AddOnError::DescriptionLength);
        }
        if !char_count_within(&self.view_widget, 6, 240) {
            return Err(AddOnError::ViewerLength);
        }
        if !char_count_within(&self.configurator_widget, 0, 240) {
            return Err(AddOnError::ConfiguratorLength);
        }
        if !char_count_within(&self.icon, 6, 60) {
            return Err(AddOnError::IconLength);
        }
        Ok(())
    }
}

pub struct AddOnView {
    pub id: Seq<char>,
    pub title: Seq<char>,
    pub description: Seq<char>,
    pub icon: Seq<char>,
    pub view_widget: Seq<char>,
    pub configurator_widget: Seq<char>,
}

impl View for AddOn {
    type V = AddOnView;

    open spec fn view(&self) -> AddOnView {
        AddOnView {
            id: self.id@,
            title: self.title@,
            description: self.description@,
            icon: self.icon@,
            view_widget: self.view_widget@,
            configurator_widget: self.configurator_widget@,
        }
    }
}

impl Clone for AddOn {
    fn clone(&self) -> (r: Self)
        ensures
            r@ == self@,
    {
        AddOn {
            id: self.id.clone(),
            title: self.title.clone(),
            description: self.description.clone(),
            icon: self.icon.clone(),
            view_widget: self.view_widget.clone(),
            configurator_widget: self.configurator_widget.clone(),
        }
    }
}

pub struct Community {
    pub admins: Vec<AccountId>,
    pub handle: CommunityHandle,
    pub name: String,
    pub tag: String,
    pub description: String,
    pub logo_url: String,
    pub banner_url: String,
    pub bio_markdown: Option<String>,
    pub github_handle: Option<String>,
    pub telegram_handle: Option<String>,
    pub twitter_handle: Option<String>,
    pub website_url: Option<String>,
    pub addons: Vec<CommunityAddOn>,
}

/// What a listing shows of a community.
pub struct CommunityCard {
    pub handle: String,
    pub name: String,
    pub description: String,
    pub logo_url: String,
    pub banner_url: String,
}

pub struct FeaturedCommunity {
    pub handle: CommunityHandle,
}

#[derive(Clone, Copy, PartialEq, Eq, Structural)]
pub struct CommunityPermissions {
    pub can_configure: bool,
    pub can_delete: bool,
}

/// Why a community description was refused.
#[derive(Debug, Clone, Copy, PartialEq, Eq, Structural)]
pub enum CommunityError {
    HandleLength,
    HandleFormat,
    NameLength,
    TagLength,
    DescriptionLength,
    BioLength,
}

impl CommunityError {
    /// The text of the message.
    pub open spec fn message_text(&self) -> Seq<char> {
        match self {
            CommunityError::HandleLength => "Community handle must contain 3 to 40 characters"@,
            CommunityError::HandleFormat => "Community handle should be lowercase alphanumeric symbols separated either by `_` or `-`, separators are not permitted to immediately follow each other, start or end with separators"@,
            CommunityError::NameLength => "Community name must contain 3 to 30 characters"@,
            CommunityError::TagLength => "Community tag must contain 3 to 30 characters"@,
            CommunityError::DescriptionLength => "Community description must contain 6 to 60 characters"@,
            CommunityError::BioLength => "Community bio must contain 3 to 200 characters"@,
        }
    }

    pub fn message(&self) -> (r: String)
        ensures
            r@ == self.message_text(),
    {
        match self {
            CommunityError::HandleLength => String::from_str("Community handle must contain 3 to 40 characters"),
            CommunityError::HandleFormat => String::from_str(
                "Community handle should be lowercase alphanumeric symbols separated either by `_` or `-`, separators are not permitted to immediately follow each other, start or end with separators",
            ),
            CommunityError::NameLength => String::from_str("Community name must contain 3 to 30 characters"),
            CommunityError::TagLength => String::from_str("Community tag must contain 3 to 30 characters"),
            CommunityError::DescriptionLength => String::from_str(
                "Community description must contain 6 to 60 characters",
            ),
            CommunityError::BioLength => String::from_str("Community bio must contain 3 to 200 characters"),
        }
    }
}

/// A handle is a valid account name without dots: a single name segment.
pub open spec fn handle_format_ok(h: Seq<char>) -> bool {
    valid_account_id(h) && !h.contains('.')
}

pub open spec fn bio_ok(bio: Option<Seq<char>>) -> bool {
    match bio {
        None => true,
        Some(text) => len_within(text, 3, 200),
    }
}

/// The first rule that a community with these fields breaks, in the order they are checked.
pub open spec fn fields_error(
    handle: Seq<char>,
    name: Seq<char>,
    tag: Seq<char>,
    description: Seq<char>,
    bio: Option<Seq<char>>,
) -> Option<CommunityError> {
    if !len_within(handle, 3, 40) {
        Some(CommunityError::HandleLength)
    } else if !handle_format_ok(handle) {
        Some(CommunityError::HandleFormat)
    } else if !len_within(name, 3, 30) {
        Some(CommunityError::NameLength)
    } else if !len_within(tag, 3, 30) {
        Some(CommunityError::TagLength)
    } else if !len_within(description, 6, 60) {
        Some(CommunityError::DescriptionLength)
    } else if !bio_ok(bio) {
        Some(CommunityError::BioLength)
    } else {
        None
    }
}

/// The first rule that a community breaks, in the order they are checked.
pub open spec fn community_error(c: Community) -> Option<CommunityError> {
    fields_error(c.handle@, c.name@, c.tag@, c.description@, opt_text(c.bio_markdown))
}

/// Whether `s` holds the character `c`.
pub fn contains_char(s: &str, c: char) -> (r: bool)
    ensures
        r == s@.contains(c),
{
    let n = s.unicode_len();
    let mut i: usize = 0;
    while i < n
        invariant
            n == s@.len(),
            i <= n,
            forall|j: int| 0 <= j < i ==> s@[j] != c,
        decreases n - i,
    {
        if s.get_char(i) == c {
            return true;
        }
        i += 1;
    }
    false
}

pub open spec fn addons_view(s: Seq<CommunityAddOn>) -> Seq<CommunityAddOnView> {
    s.map_values(|a: CommunityAddOn| a@)
}

impl Community {
    /// Checks the community's handle and texts; the error names the first rule broken.
    pub fn validate(&self) -> (r: Result<(), CommunityError>)
        ensures
            match r {
                Ok(()) => community_error(*self) is None,
                Err(e) => community_error(*self) == Some(e),
            },
    {
        if !char_count_within(&self.handle, 3, 40) {
            return Err(CommunityError::HandleLength);
        }
        if !(is_valid_account_id(self.handle.as_str()) && !contains_char(self.handle.as_str(), '.')) {
            return Err(CommunityError::HandleFormat);
        }
        if !char_count_within(&self.name, 3, 30) {
            return Err(CommunityError::NameLength);
        }
        if !char_count_within(&self.tag, 3, 30) {
            return Err(CommunityError::TagLength);
        }
        if !char_count_within(&self.description, 6, 60) {
            return Err(CommunityError::DescriptionLength);
        }
        match &self.bio_markdown {
            None => {},
            Some(text) => {
                if !char_count_within(text, 3, 200) {
                    return Err(CommunityError::BioLength);
                }
            },
        }
        Ok(())
    }

    pub fn add_addon(&mut self, addon_config: CommunityAddOn)
        ensures
            final(self).addons@ == old(self).addons@.push(addon_config),
            final(self).admins == old(self).admins,
            final(self).handle == old(self).handle,
    {
        self.addons.push(addon_config);
    }

    /// Drops every add-on equal to the given one, keeping the others in order.
    pub fn remove_addon(&mut self, addon_to_remove: CommunityAddOn)
        ensures
            addons_view(final(self).addons@) == addons_view(old(self).addons@).filter(
                |a: CommunityAddOnView| a != addon_to_remove@,
            ),
            final(self).admins == old(self).admins,
            final(self).handle == old(self).handle,
    {
        let ghost pred = |a: CommunityAddOnView| a != addon_to_remove@;
        let ghost orig = addons_view(self.addons@);
        let mut kept: Vec<CommunityAddOn> = Vec::new();
        let mut i: usize = 0;
        while i < self.addons.len()
            invariant
                i <= self.addons@.len(),
                orig == addons_view(self.addons@),
                pred == (|a: CommunityAddOnView| a != addon_to_remove@),
                addons_view(kept@) == orig.subrange(0, i as int).filter(pred),
            decreases self.addons@.len() - i,
        {
            proof {
                assert(orig.subrange(0, i + 1) =~= orig.subrange(0, i as int).push(orig[i as int]));
                orig.subrange(0, i as int).lemma_filter_push(orig[i as int], pred);
            }
            if !self.addons[i].same_as(&addon_to_remove) {
                let a = self.addons[i].clone();
                kept.push(a);
                proof {
                    assert(addons_view(kept@) =~= addons_view(kept@.drop_last()).push(a@));
                    assert(kept@.drop_last() =~= kept@.subrange(0, kept@.len() - 1));
                }
            }
            i += 1;
        }
        proof {
            assert(orig.subrange(0, orig.len() as int) =~= orig);
        }
        self.addons = kept;
    }

    pub fn set_addons(&mut self, addons: Vec<CommunityAddOn>)
        ensures
            final(self).addons == addons,
            final(self).admins == old(self).admins,
            final(self).handle == old(self).handle,
    {
        self.addons = addons;
    }

    /// A community without admins gets the caller as its only admin.
    pub fn set_default_admin(&mut self, predecessor: AccountId)
        ensures
            old(self).admins@.len() == 0 ==> final(self).admins@ == seq![predecessor],
            old(self).admins@.len() != 0 ==> final(self).admins == old(self).admins,
            final(self).handle == old(self).handle,
            final(self).addons == old(self).addons,
            final(self).name == old(self).name,
            final(self).tag == old(self).tag,
            final(self).description == old(self).description,
            final(self).logo_url == old(self).logo_url,
            final(self).banner_url == old(self).banner_url,
            final(self).bio_markdown == old(self).bio_markdown,
            final(self).github_handle == old(self).github_handle,
            final(self).telegram_handle == old(self).telegram_handle,
            final(self).twitter_handle == old(self).twitter_handle,
            final(self).website_url == old(self).website_url,
    {
        if self.admins.len() == 0 {
            self.admins = vec![predecessor];
        }
    }
}

pub open spec fn community_prefix() -> Seq<char> {
    seq!['c', 'o', 'm', 'm', 'u', 'n', 'i', 't', 'y', '.']
}

pub open spec fn discussions_prefix() -> Seq<char> {
    seq!['d', 'i', 's', 'c', 'u', 's', 's', 'i', 'o', 'n', 's', '.']
}

/// The account of the community factory: `community.<contract account>`.
pub open spec fn community_factory_of(current: Seq<char>) -> Seq<char> {
    community_prefix() + current
}

/// The account of a community: `<handle>.community.<contract account>`.
pub open spec fn community_account_of(handle: Seq<char>, current: Seq<char>) -> Seq<char> {
    handle + seq!['.'] + community_factory_of(current)
}

/// The account of a community's discussions: `discussions.<community account>`.
pub open spec fn discussions_account_of(handle: Seq<char>, current: Seq<char>) -> Seq<char> {
    discussions_prefix() + community_account_of(handle, current)
}

/// The community factory account under the contract's own account.
pub fn get_devhub_community_factory(current_account: &str) -> (r: AccountId)
    requires
        valid_account_id(community_factory_of(current_account@)),
    ensures
        r@ == community_factory_of(current_account@),
{
    let mut s = String::from_str("community.");
    proof {
        reveal_strlit("community.");
    }
    s.append(current_account);
    assert(s@ =~= community_factory_of(current_account@));
    s
}

/// The account of a community's discussions sub-account.
pub fn get_devhub_discussions_factory(handle: &CommunityHandle, current_account: &str) -> (r: AccountId)
    requires
        valid_account_id(community_factory_of(current_account@)),
        valid_account_id(community_account_of(handle@, current_account@)),
    ensures
        r@ == community_account_of(handle@, current_account@),
{
    get_devhub_community_account(handle, current_account)
}

pub fn get_devhub_community_account(handle: &CommunityHandle, current_account: &str) -> (r: String)
    requires
        valid_account_id(community_factory_of(current_account@)),
    ensures
        r@ == community_account_of(handle@, current_account@),
{
    let factory = get_devhub_community_factory(current_account);
    let mut s = handle.clone();
    s.append(".");
    proof {
        reveal_strlit(".");
    }
    s.append(factory.as_str());
    assert(s@ =~= community_account_of(handle@, current_account@));
    s
}

pub fn get_devhub_discussions_account(handle: &CommunityHandle, current_account: &str) -> (r: String)
    requires
        valid_account_id(community_factory_of(current_account@)),
    ensures
        r@ == discussions_account_of(handle@, current_account@),
{
    let account = get_devhub_community_account(handle, current_account);
    let mut s = String::from_str("discussions.");
    proof {
        reveal_strlit("discussions.");
    }
    s.append(account.as_str());
    assert(s@ =~= discussions_account_of(handle@, current_account@));
    s
}

/// The deposit that creating a community account takes: 4 NEAR, in yoctoNEAR.
pub const CREATE_COMMUNITY_BALANCE: u128 = 4_000_000_000_000_000_000_000_000u128;

/// The deposit that creating a discussions account takes: 2 NEAR, in yoctoNEAR.
pub const CREATE_DISCUSSION_BALANCE: u128 = 2_000_000_000_000_000_000_000_000u128;

/// Gas amounts, in gas units (1 Tgas is 10^12).
pub const CREATE_COMMUNITY_GAS: u64 = 200_000_000_000_000u64;

pub const UPDATE_COMMUNITY_GAS: u64 = 30_000_000_000_000u64;

pub const DELETE_COMMUNITY_GAS: u64 = 30_000_000_000_000u64;

pub const SET_COMMUNITY_SOCIALDB_GAS: u64 = 30_000_000_000_000u64;

pub const CREATE_DISCUSSION_GAS: u64 = 30_000_000_000_000u64;

/// The content of a community, its texts taken by their characters.
#[verifier::ext_equal]
pub struct CommunityView {
    pub admins: Seq<Seq<char>>,
    pub handle: Seq<char>,
    pub name: Seq<char>,
    pub tag: Seq<char>,
    pub description: Seq<char>,
    pub logo_url: Seq<char>,
    pub banner_url: Seq<char>,
    pub bio_markdown: Option<Seq<char>>,
    pub github_handle: Option<Seq<char>>,
    pub telegram_handle: Option<Seq<char>>,
    pub twitter_handle: Option<Seq<char>>,
    pub website_url: Option<Seq<char>>,
    pub addons: Seq<CommunityAddOnView>,
}

pub open spec fn opt_text(o: Option<String>) -> Option<Seq<char>> {
    match o {
        Some(s) => Some(s@),
        None => None,
    }
}

pub open spec fn community_view(c: Community) -> CommunityView {
    CommunityView {
        admins: crate::access_control::rules::strings_view(c.admins@),
        handle: c.handle@,
        name: c.name@,
        tag: c.tag@,
        description: c.description@,
        logo_url: c.logo_url@,
        banner_url: c.banner_url@,
        bio_markdown: opt_text(c.bio_markdown),
        github_handle: opt_text(c.github_handle),
        telegram_handle: opt_text(c.telegram_handle),
        twitter_handle: opt_text(c.twitter_handle),
        website_url: opt_text(c.website_url),
        addons: addons_view(c.addons@),
    }
}

pub fn clone_opt_text(o: &Option<String>) -> (r: Option<String>)
    ensures
        opt_text(r) == opt_text(*o),
{
    match o {
        Some(s) => Some(s.clone()),
        None => None,
    }
}

pub fn clone_addons(v: &Vec<CommunityAddOn>) -> (r: Vec<CommunityAddOn>)
    ensures
        addons_view(r@) == addons_view(v@),
{
    let mut r: Vec<CommunityAddOn> = Vec::new();
    let mut i: usize = 0;
    while i < v.len()
        invariant
            i <= v@.len(),
            addons_view(r@) == addons_view(v@).subrange(0, i as int),
        decreases v@.len() - i,
    {
        let ghost before = r@;
        r.push(v[i].clone());
        proof {
            assert(addons_view(r@) =~= addons_view(before).push(v@[i as int]@));
            assert(addons_view(v@).subrange(0, i + 1) =~= addons_view(v@).subrange(0, i as int).push(v@[i as int]@));
        }
        i += 1;
    }
    assert(addons_view(v@).subrange(0, v@.len() as int) =~= addons_view(v@));
    r
}

impl Community {
    /// A copy of the community.
    pub fn deep_clone(&self) -> (r: Community)
        ensures
            community_view(r) == community_view(*self),
    {
        Community {
            admins: crate::contract::labels::clone_strings(&self.admins),
            handle: self.handle.clone(),
            name: self.name.clone(),
            tag: self.tag.clone(),
            description: self.description.clone(),
            logo_url: self.logo_url.clone(),
            banner_url: self.banner_url.clone(),
            bio_markdown: clone_opt_text(&self.bio_markdown),
            github_handle: clone_opt_text(&self.github_handle),
            telegram_handle: clone_opt_text(&self.telegram_handle),
            twitter_handle: clone_opt_text(&self.twitter_handle),
            website_url: clone_opt_text(&self.website_url),
            addons: clone_addons(&self.addons),
        }
    }

    /// The community's metadata: everything but its links and add-ons.
    pub fn metadata(&self) -> (r: CommunityMetadata)
        ensures
            crate::access_control::rules::strings_view(r.admins@) == crate::access_control::rules::strings_view(self.admins@),
            r.handle@ == self.handle@,
            r.name@ == self.name@,
            r.tag@ == self.tag@,
            r.description@ == self.description@,
            r.logo_url@ == self.logo_url@,
            r.banner_url@ == self.banner_url@,
            opt_text(r.bio_markdown) == opt_text(self.bio_markdown),
    {
        CommunityMetadata {
            admins: crate::contract::labels::clone_strings(&self.admins),
            handle: self.handle.clone(),
            name: self.name.clone(),
            tag: self.tag.clone(),
            description: self.description.clone(),
            logo_url: self.logo_url.clone(),
            banner_url: self.banner_url.clone(),
            bio_markdown: clone_opt_text(&self.bio_markdown),
        }
    }
}

} // verus!
