//! Members (accounts and teams), their team hierarchy and their permissions.
use crate::access_control::rules::{
    rule_applies_to_any, strings_view, Rule, RuleView,
};
use crate::account::{is_account_char, is_valid_account_id, valid_account_id, AccountId};
use crate::assoc::{AssocMap, ViewKey};
use crate::text::{seq_starts_with, starts_with};
use vstd::prelude::*;

verus! {

/// A member: either a NEAR account or a team. Written as a string, a team is
/// `team:<name>`; NEAR account names cannot contain `:`.
#[derive(Debug, PartialEq, Eq, PartialOrd, Ord, Hash)]
pub enum Member {
    Account(AccountId),
    Team(String),
}

pub enum MemberView {
    Account(Seq<char>),
    Team(Seq<char>),
}

impl View for Member {
    type V = MemberView;

    open spec fn view(&self) -> MemberView {
        match self {
            Member::Account(s) => MemberView::Account(s@),
            Member::Team(s) => MemberView::Team(s@),
        }
    }
}

impl Clone for Member {
    fn clone(&self) -> (r: Self)
        ensures
            r@ == self@,
    {
        match self {
            Member::Account(s) => Member::Account(s.clone()),
            Member::Team(s) => Member::Team(s.clone()),
        }
    }
}

impl ViewKey for Member {
    fn same_key(&self, other: &Self) -> (r: bool) {
        match (self, other) {
            (Member::Account(a), Member::Account(b)) => *a == *b,
            (Member::Team(a), Member::Team(b)) => *a == *b,
            _ => false,
        }
    }

    fn copy_key(&self) -> (r: Self) {
        self.clone()
    }
}

pub open spec fn team_marker() -> Seq<char> {
    seq!['t', 'e', 'a', 'm', ':']
}

/// The member a string denotes, if any: `team:<name>` is a team, a valid
/// account id is an account, and any other string denotes no member.
pub open spec fn member_from_seq(s: Seq<char>) -> Option<MemberView> {
    if seq_starts_with(s, team_marker()) {
        Some(MemberView::Team(s.subrange(5, s.len() as int)))
    } else if valid_account_id(s) {
        Some(MemberView::Account(s))
    } else {
        None
    }
}

pub open spec fn member_to_seq(m: MemberView) -> Seq<char> {
    match m {
        MemberView::Account(s) => s,
        MemberView::Team(s) => team_marker() + s,
    }
}

fn team_marker_string() -> (r: String)
    ensures
        r@ == team_marker(),
{
    let mut s = String::new();
    s.append("team:");
    proof {
        reveal_strlit("team:");
    }
    assert(s@ =~= team_marker());
    s
}

impl Member {
    /// The member that a string denotes; `None` for a string that is neither
    /// `team:<name>` nor a valid account id.
    pub fn from(full_str: String) -> (r: Option<Member>)
        ensures
            match r {
                Some(m) => member_from_seq(full_str@) == Some(m@),
                None => member_from_seq(full_str@) is None,
            },
    {
        let marker = team_marker_string();
        if starts_with(full_str.as_str(), marker.as_str()) {
            let n = full_str.as_str().unicode_len();
            let rest = full_str.as_str().substring_char(5, n);
            Some(Member::Team(String::from_str(rest)))
        } else if is_valid_account_id(full_str.as_str()) {
            Some(Member::Account(full_str))
        } else {
            None
        }
    }

    /// The string that denotes this member.
    pub fn into(self) -> (r: String)
        ensures
            r@ == member_to_seq(self@),
    {
        match self {
            Member::Account(s) => s,
            Member::Team(s) => {
                let marker = team_marker_string();
                marker.concat(s.as_str())
            },
        }
    }
}

#[derive(Debug, PartialEq, Eq, PartialOrd, Ord, Hash, Clone, Copy, Structural)]
pub enum ActionType {
    /// Can edit posts that have these labels.
    EditPost,
    /// Can add/remove labels that fall under these rules.
    UseLabels,
}

pub struct MemberMetadata {
    pub description: String,
    pub permissions: AssocMap<Rule, Vec<ActionType>>,
    pub children: Vec<Member>,
    pub parents: Vec<Member>,
}

pub enum VersionedMemberMetadata {
    V0(MemberMetadata),
}

/// The members named in a sequence, as a set.
pub open spec fn member_set(s: Seq<Member>) -> Set<MemberView> {
    Set::new(|m: MemberView| exists|i: int| 0 <= i < s.len() && #[trigger] s[i]@ == m)
}

/// Mathematical form of member metadata.
#[verifier::ext_equal]
pub struct MemberMetadataView {
    pub description: Seq<char>,
    pub permissions: Map<RuleView, Set<ActionType>>,
    pub children: Set<MemberView>,
    pub parents: Set<MemberView>,
}

pub open spec fn permissions_view(p: AssocMap<Rule, Vec<ActionType>>) -> Map<RuleView, Set<ActionType>> {
    Map::new(|r: RuleView| p.map().dom().contains(r), |r: RuleView| p.map()[r]@.to_set())
}

impl MemberMetadata {
    pub open spec fn view(&self) -> MemberMetadataView {
        MemberMetadataView {
            description: self.description@,
            permissions: permissions_view(self.permissions),
            children: member_set(self.children@),
            parents: member_set(self.parents@),
        }
    }

    pub open spec fn wf(&self) -> bool {
        self.permissions.wf()
    }
}

fn clone_members(v: &Vec<Member>) -> (r: Vec<Member>)
    ensures
        r@.len() == v@.len(),
        forall|i: int| 0 <= i < v@.len() ==> #[trigger] r@[i]@ == v@[i]@,
        member_set(r@) == member_set(v@),
{
    let mut r: Vec<Member> = Vec::new();
    let mut i: usize = 0;
    while i < v.len()
        invariant
            i <= v@.len(),
            r@.len() == i,
            forall|j: int| 0 <= j < i ==> #[trigger] r@[j]@ == v@[j]@,
        decreases v@.len() - i,
    {
        r.push(v[i].clone());
        i += 1;
    }
    proof {
        assert forall|m: MemberView| member_set(r@).contains(m) == member_set(v@).contains(m) by {
            if member_set(r@).contains(m) {
                let j = choose|j: int| 0 <= j < r@.len() && #[trigger] r@[j]@ == m;
                assert(v@[j]@ == m);
            }
            if member_set(v@).contains(m) {
                let j = choose|j: int| 0 <= j < v@.len() && #[trigger] v@[j]@ == m;
                assert(r@[j]@ == m);
            }
        }
        assert(member_set(r@) =~= member_set(v@));
    }
    r
}

fn clone_permissions(p: &AssocMap<Rule, Vec<ActionType>>) -> (r: AssocMap<Rule, Vec<ActionType>>)
    requires
        p.wf(),
    ensures
        r.wf(),
        permissions_view(r) == permissions_view(*p),
{
    let mut entries: Vec<(Rule, Vec<ActionType>)> = Vec::new();
    let mut i: usize = 0;
    while i < p.entries.len()
        invariant
            p.wf(),
            i <= p.entries@.len(),
            entries@.len() == i,
            forall|j: int|
                0 <= j < i ==> (#[trigger] entries@[j]).0@ == p.entries@[j].0@ && entries@[j].1@
                    == p.entries@[j].1@,
        decreases p.entries@.len() - i,
    {
        let rule = p.entries[i].0.clone();
        let actions = p.entries[i].1.clone();
        assert(actions@ =~= p.entries@[i as int].1@);
        entries.push((rule, actions));
        i += 1;
    }
    let r = AssocMap { entries };
    proof {
        assert forall|a: int, b: int|
            0 <= a < b < r.entries@.len() implies #[trigger] r.entries@[a].0@
            != #[trigger] r.entries@[b].0@ by {
            assert(p.entries@[a].0@ != p.entries@[b].0@);
        }
        assert forall|k: RuleView| r.has(k) == p.has(k) by {
            if r.has(k) {
                let j = choose|j: int| 0 <= j < r.entries@.len() && #[trigger] r.entries@[j].0@ == k;
                assert(p.entries@[j].0@ == k);
            }
            if p.has(k) {
                let j = choose|j: int| 0 <= j < p.entries@.len() && #[trigger] p.entries@[j].0@ == k;
                assert(r.entries@[j].0@ == k);
            }
        }
        assert forall|k: RuleView| #[trigger] permissions_view(r).dom().contains(k) implies permissions_view(
            r,
        )[k] == permissions_view(*p)[k] by {
            let j = r.index_of(k);
            r.lemma_lookup(j);
            p.lemma_lookup(j);
        }
        assert(permissions_view(r) =~= permissions_view(*p));
    }
    r
}

impl MemberMetadata {
    pub fn clone_metadata(&self) -> (r: MemberMetadata)
        requires
            self.wf(),
        ensures
            r.wf(),
            r.view() == self.view(),
            metadata_wf(*self) ==> metadata_wf(r),
    {
        let r = MemberMetadata {
            description: self.description.clone(),
            permissions: clone_permissions(&self.permissions),
            children: clone_members(&self.children),
            parents: clone_members(&self.parents),
        };
        proof {
            if metadata_wf(*self) {
                assert forall|a: int, b: int| 0 <= a < b < r.children@.len() implies #[trigger] r.children@[a]@ != #[trigger] r.children@[b]@ by {
                    assert(self.children@[a]@ != self.children@[b]@);
                }
                assert forall|a: int, b: int| 0 <= a < b < r.parents@.len() implies #[trigger] r.parents@[a]@ != #[trigger] r.parents@[b]@ by {
                    assert(self.parents@[a]@ != self.parents@[b]@);
                }
            }
        }
        r
    }
}

impl VersionedMemberMetadata {
    pub open spec fn inner(&self) -> MemberMetadata {
        match self {
            VersionedMemberMetadata::V0(v0) => *v0,
        }
    }

    pub open spec fn view(&self) -> MemberMetadataView {
        self.inner().view()
    }

    pub open spec fn wf(&self) -> bool {
        self.inner().wf()
    }

    /// A reference to the metadata of the latest version.
    pub fn latest(&self) -> (r: &MemberMetadata)
        ensures
            *r == self.inner(),
    {
        match self {
            VersionedMemberMetadata::V0(v0) => v0,
        }
    }

    /// A copy of the metadata of the latest version.
    pub fn last_version(&self) -> (r: MemberMetadata)
        requires
            self.wf(),
        ensures
            r.wf(),
            r.view() == self.view(),
            metadata_wf(self.inner()) ==> metadata_wf(r),
    {
        match self {
            VersionedMemberMetadata::V0(v0) => v0.clone_metadata(),
        }
    }
}

impl From<MemberMetadata> for VersionedMemberMetadata {
    fn from(m: MemberMetadata) -> (r: Self)
        ensures
            r == VersionedMemberMetadata::V0(m),
    {
        VersionedMemberMetadata::V0(m)
    }
}

impl vstd::std_specs::convert::FromSpecImpl<MemberMetadata> for VersionedMemberMetadata {
    open spec fn obeys_from_spec() -> bool {
        true
    }

    open spec fn from_spec(v: MemberMetadata) -> Self {
        VersionedMemberMetadata::V0(v)
    }
}

} // verus!

verus! {

fn contains_member(s: &Vec<Member>, m: &Member) -> (r: bool)
    ensures
        r == member_set(s@).contains(m@),
{
    let mut i: usize = 0;
    while i < s.len()
        invariant
            i <= s@.len(),
            forall|j: int| 0 <= j < i ==> #[trigger] s@[j]@ != m@,
        decreases s@.len() - i,
    {
        if s[i].same_key(m) {
            return true;
        }
        i += 1;
    }
    false
}

/// Parent and child links agree: `p` is a parent of `x` exactly when `x` is a
/// child of `p`, and both are members.
pub open spec fn links_consistent(v: Map<MemberView, MemberMetadataView>) -> bool {
    &&& forall|x: MemberView, p: MemberView|
        v.dom().contains(x) && #[trigger] v[x].parents.contains(p) ==> v.dom().contains(p)
            && v[p].children.contains(x)
    &&& forall|p: MemberView, x: MemberView|
        v.dom().contains(p) && #[trigger] v[p].children.contains(x) ==> v.dom().contains(x)
            && v[x].parents.contains(p)
}

/// A chain of members, each the parent of the one before it.
pub open spec fn is_parent_path(v: Map<MemberView, MemberMetadataView>, path: Seq<MemberView>) -> bool {
    &&& path.len() >= 1
    &&& v.dom().contains(path[0])
    &&& forall|i: int|
        0 <= i < path.len() - 1 ==> v.dom().contains(#[trigger] path[i + 1]) && v[path[i]].parents.contains(
            path[i + 1],
        )
}

/// `to` is `from` itself or one of its (transitive) parents.
pub open spec fn inherits_from(
    v: Map<MemberView, MemberMetadataView>,
    from: MemberView,
    to: MemberView,
) -> bool {
    exists|path: Seq<MemberView>|
        #[trigger] is_parent_path(v, path) && path[0] == from && path[path.len() - 1] == to
}

/// The metadata grants action `a` through some rule that applies to any of the labels.
pub open spec fn grants(md: MemberMetadataView, labels: Seq<Seq<char>>, a: ActionType) -> bool {
    exists|r: RuleView|
        #[trigger] md.permissions.dom().contains(r) && rule_applies_to_any(r, labels)
            && md.permissions[r].contains(a)
}

/// The actions that an account may take on content with the given labels: those
/// granted to the account or to any team it belongs to, directly or through
/// parent teams. An account that is not a member gets none.
pub open spec fn permissions_for(
    v: Map<MemberView, MemberMetadataView>,
    account: Seq<char>,
    labels: Seq<Seq<char>>,
) -> Set<ActionType> {
    Set::new(
        |a: ActionType|
            exists|m: MemberView|
                #[trigger] inherits_from(v, MemberView::Account(account), m) && grants(
                    v[m],
                    labels,
                    a,
                ),
    )
}

pub proof fn lemma_closed_contains_path(
    v: Map<MemberView, MemberMetadataView>,
    s: Set<MemberView>,
    path: Seq<MemberView>,
)
    requires
        is_parent_path(v, path),
        s.contains(path[0]),
        forall|x: MemberView, p: MemberView|
            s.contains(x) && v.dom().contains(x) && #[trigger] v[x].parents.contains(p) ==> s.contains(
                p,
            ),
    ensures
        s.contains(path[path.len() - 1]),
    decreases path.len(),
{
    if path.len() > 1 {
        let prefix = path.drop_last();
        assert forall|i: int| 0 <= i < prefix.len() - 1 implies v.dom().contains(
            #[trigger] prefix[i + 1],
        ) && v[prefix[i]].parents.contains(prefix[i + 1]) by {
            assert(prefix[i + 1] == path[i + 1]);
            assert(prefix[i] == path[i]);
        }
        lemma_closed_contains_path(v, s, prefix);
        assert(v.dom().contains(path[(path.len() - 2) + 1]));
        assert(prefix[prefix.len() - 1] == path[path.len() - 2]);
        let x = path[path.len() - 2];
        if path.len() > 2 {
            assert(v.dom().contains(path[(path.len() - 3) + 1]));
        }
        assert(v.dom().contains(x));
        assert(v[x].parents.contains(path[path.len() - 1]));
        assert(s.contains(x));
    }
}

/// Errors of membership changes.
#[derive(Debug, PartialEq, Eq, Clone, Copy, Structural)]
pub enum MembersError {
    /// "Member already exists"
    MemberAlreadyExists,
    /// "Member does not exist"
    MemberNotFound,
    /// "Member declares a child .. that does not exist"
    ChildNotFound,
    /// "Member declares a parent .. that does not exist"
    ParentNotFound,
    /// "Child already had this parent"
    ChildAlreadyHadParent,
    /// "Parent already had this child"
    ParentAlreadyHadChild,
}

/// Members with their metadata.
pub struct MembersList {
    pub members: AssocMap<Member, VersionedMemberMetadata>,
}

pub open spec fn no_duplicate_members(s: Seq<Member>) -> bool {
    forall|i: int, j: int| 0 <= i < j < s.len() ==> #[trigger] s[i]@ != #[trigger] s[j]@
}

pub open spec fn metadata_wf(md: MemberMetadata) -> bool {
    &&& md.wf()
    &&& no_duplicate_members(md.children@)
    &&& no_duplicate_members(md.parents@)
}

impl MembersList {
    pub open spec fn view(&self) -> Map<MemberView, MemberMetadataView> {
        Map::new(
            |m: MemberView| self.members.map().dom().contains(m),
            |m: MemberView| self.members.map()[m].view(),
        )
    }

    pub open spec fn wf(&self) -> bool {
        &&& self.members.wf()
        &&& forall|i: int|
            0 <= i < self.members.entries@.len() ==> metadata_wf(
                (#[trigger] self.members.entries@[i]).1.inner(),
            )
        &&& links_consistent(self.view())
    }

    pub fn new() -> (r: Self)
        ensures
            r.wf(),
            r.view() == Map::<MemberView, MemberMetadataView>::empty(),
    {
        let r = MembersList { members: AssocMap::new() };
        assert(r.view() =~= Map::<MemberView, MemberMetadataView>::empty());
        r
    }

    proof fn lemma_entry_view(&self, i: int)
        requires
            self.wf(),
            0 <= i < self.members.entries@.len(),
        ensures
            self.view().dom().contains(self.members.entries@[i].0@),
            self.view()[self.members.entries@[i].0@] == self.members.entries@[i].1.view(),
            metadata_wf(self.members.entries@[i].1.inner()),
    {
        self.members.lemma_lookup(i);
    }

    proof fn lemma_visited_bound(&self, vs: Seq<Member>)
        requires
            self.wf(),
            no_duplicate_members(vs),
            forall|i: int| 0 <= i < vs.len() ==> self.view().dom().contains(#[trigger] vs[i]@),
        ensures
            vs.len() <= self.members.entries@.len(),
    {
        let views = vs.map_values(|m: Member| m@);
        let keys = self.members.key_seq();
        assert(views.no_duplicates()) by {
            assert forall|i: int, j: int|
                0 <= i < views.len() && 0 <= j < views.len() && i != j implies views[i]
                != views[j] by {
                if i < j {
                    assert(vs[i]@ != vs[j]@);
                } else {
                    assert(vs[j]@ != vs[i]@);
                }
            }
        }
        views.unique_seq_to_set();
        assert(views.to_set().subset_of(keys.to_set())) by {
            assert forall|x: MemberView| views.to_set().contains(x) implies keys.to_set().contains(
                x,
            ) by {
                let i = choose|i: int| 0 <= i < views.len() && views[i] == x;
                assert(vs[i]@ == x);
                assert(self.members.has(x));
                let j = self.members.index_of(x);
                assert(keys[j] == x);
            }
        }
        keys.lemma_cardinality_of_set();
        vstd::set_lib::lemma_len_subset(views.to_set(), keys.to_set());
    }

    /// The members that do not belong to any team, with copies of their metadata.
    pub fn get_root_members(&self) -> (r: Vec<(Member, VersionedMemberMetadata)>)
        requires
            self.wf(),
        ensures
            r@.len() <= self.members.entries@.len(),
            forall|i: int|
                0 <= i < r@.len() ==> self.view().dom().contains((#[trigger] r@[i]).0@)
                    && self.view()[r@[i].0@].parents.is_empty() && r@[i].1.view() == self.view()[r@[i].0@],
            forall|m: MemberView|
                self.view().dom().contains(m) && #[trigger] self.view()[m].parents.is_empty()
                    ==> exists|i: int| 0 <= i < r@.len() && r@[i].0@ == m,
            forall|i: int, j: int| 0 <= i < j < r@.len() ==> (#[trigger] r@[i]).0@ != (#[trigger] r@[j]).0@,
    {
        let mut r: Vec<(Member, VersionedMemberMetadata)> = Vec::new();
        let ghost mut from: Seq<int> = Seq::empty();
        let mut i: usize = 0;
        while i < self.members.entries.len()
            invariant
                self.wf(),
                i <= self.members.entries@.len(),
                r@.len() <= i,
                forall|k: int|
                    0 <= k < r@.len() ==> self.view().dom().contains((#[trigger] r@[k]).0@)
                        && self.view()[r@[k].0@].parents.is_empty() && r@[k].1.view()
                        == self.view()[r@[k].0@],
                forall|j: int|
                    0 <= j < i && (#[trigger] self.members.entries@[j]).1.view().parents.is_empty()
                        ==> exists|k: int| 0 <= k < r@.len() && r@[k].0@ == self.members.entries@[j].0@,
                from.len() == r@.len(),
                forall|k: int| 0 <= k < r@.len() ==> 0 <= #[trigger] from[k] < i && r@[k].0@ == self.members.entries@[from[k]].0@,
                forall|k1: int, k2: int| 0 <= k1 < k2 < from.len() ==> #[trigger] from[k1] < #[trigger] from[k2],
            decreases self.members.entries@.len() - i,
        {
            proof {
                self.lemma_entry_view(i as int);
            }
            let md = self.members.entries[i].1.latest();
            if md.parents.len() == 0 {
                let m = self.members.entries[i].0.clone();
                let copy = self.members.entries[i].1.last_version();
                let ghost r_before = r@;
                r.push((m, VersionedMemberMetadata::V0(copy)));
                proof {
                    from = from.push(i as int);
                    let k = r@.len() - 1;
                    assert(r@[k].0@ == self.members.entries@[i as int].0@);
                    assert forall|j: int|
                        0 <= j < i + 1 && (#[trigger] self.members.entries@[j]).1.view().parents.is_empty()
                            implies exists|k: int| 0 <= k < r@.len() && r@[k].0@ == self.members.entries@[j].0@ by {
                        if j < i {
                            let kk = choose|kk: int| 0 <= kk < r_before.len() && r_before[kk].0@ == self.members.entries@[j].0@;
                            assert(r@[kk] == r_before[kk]);
                        } else {
                            assert(r@[k].0@ == self.members.entries@[j].0@);
                        }
                    }
                    assert forall|kk: int| 0 <= kk < r@.len() implies self.view().dom().contains((#[trigger] r@[kk]).0@)
                        && self.view()[r@[kk].0@].parents.is_empty() && r@[kk].1.view()
                        == self.view()[r@[kk].0@] by {
                        if kk < r_before.len() {
                            assert(r@[kk] == r_before[kk]);
                        }
                    }
                }
            } else {
                proof {
                    assert(self.members.entries@[i as int].1.view().parents.contains(
                        md.parents@[0]@,
                    ));
                }
            }
            i += 1;
        }
        proof {
            assert forall|m: MemberView|
                self.view().dom().contains(m) && #[trigger] self.view()[m].parents.is_empty()
                    implies exists|i: int| 0 <= i < r@.len() && r@[i].0@ == m by {
                let j = self.members.index_of(m);
                self.lemma_entry_view(j);
                assert(self.members.entries@[j].1.view().parents.is_empty());
            }
            assert forall|a: int, b: int| 0 <= a < b < r@.len() implies (#[trigger] r@[a]).0@ != (#[trigger] r@[b]).0@ by {
                assert(from[a] < from[b]);
                assert(self.members.entries@[from[a]].0@ != self.members.entries@[from[b]].0@);
            }
        }
        r
    }

    /// The actions that `account` may take on content with `labels`, each once.
    pub fn check_permissions(&self, account: AccountId, labels: Vec<String>) -> (r: Vec<ActionType>)
        requires
            self.wf(),
        ensures
            r@.to_set() == permissions_for(self.view(), account@, strings_view(labels@)),
            r@.no_duplicates(),
    {
        let ghost v = self.view();
        let ghost lv = strings_view(labels@);
        let ghost s0 = MemberView::Account(account@);
        let start = Member::Account(account);
        if !self.members.contains_key(&start) {
            proof {
                assert(permissions_for(v, account@, lv) =~= Set::<ActionType>::empty()) by {
                    assert forall|a: ActionType|
                        !permissions_for(v, account@, lv).contains(a) by {
                        if permissions_for(v, account@, lv).contains(a) {
                            let m = choose|m: MemberView|
                                #[trigger] inherits_from(v, s0, m) && grants(v[m], lv, a);
                            let path = choose|path: Seq<MemberView>|
                                #[trigger] is_parent_path(v, path) && path[0] == s0 && path[path.len()
                                    - 1] == m;
                        }
                    }
                }
            }
            return Vec::new();
        }
        proof {
            let p = seq![s0];
            assert(is_parent_path(v, p));
            assert(inherits_from(v, s0, s0));
        }
        let mut visited: Vec<Member> = Vec::new();
        let mut stack: Vec<Member> = Vec::new();
        stack.push(start);
        let mut permissions: Vec<ActionType> = Vec::new();
        assert(stack@[0]@ == s0);
        assert(permissions@.to_set() =~= Set::new(
            |a: ActionType|
                exists|i: int| 0 <= i < visited@.len() && grants(v[#[trigger] visited@[i]@], lv, a),
        ));
        while stack.len() > 0
            invariant
                self.wf(),
                v == self.view(),
                lv == strings_view(labels@),
                forall|i: int| 0 <= i < stack@.len() ==> inherits_from(v, s0, #[trigger] stack@[i]@),
                forall|i: int| 0 <= i < visited@.len() ==> inherits_from(v, s0, #[trigger] visited@[i]@),
                no_duplicate_members(visited@),
                forall|i: int, p: MemberView|
                    0 <= i < visited@.len() && #[trigger] v[visited@[i]@].parents.contains(p)
                        ==> member_set(visited@).contains(p) || member_set(stack@).contains(p),
                member_set(visited@).contains(s0) || member_set(stack@).contains(s0),
                permissions@.no_duplicates(),
                permissions@.to_set() == Set::new(
                    |a: ActionType|
                        exists|i: int| 0 <= i < visited@.len() && grants(v[#[trigger] visited@[i]@], lv, a),
                ),
            decreases self.members.entries@.len() - visited@.len(), stack@.len(),
        {
            proof {
                assert forall|i: int| 0 <= i < visited@.len() implies v.dom().contains(
                    #[trigger] visited@[i]@,
                ) by {
                    assert(inherits_from(v, s0, visited@[i]@));
                    let path = choose|path: Seq<MemberView>|
                        #[trigger] is_parent_path(v, path) && path[0] == s0 && path[path.len() - 1]
                            == visited@[i]@;
                    if path.len() > 1 {
                        assert(v.dom().contains(path[(path.len() - 2) + 1]));
                    }
                }
                self.lemma_visited_bound(visited@);
            }
            let ghost old_stack = stack@;
            let member = stack.pop().unwrap();
            proof {
                assert(member@ == old_stack[old_stack.len() - 1]@);
                assert(inherits_from(v, s0, old_stack[old_stack.len() - 1]@));
            }
            if contains_member(&visited, &member) {
                proof {
                    assert forall|i: int, p: MemberView|
                        0 <= i < visited@.len() && #[trigger] v[visited@[i]@].parents.contains(p)
                            implies member_set(visited@).contains(p) || member_set(stack@).contains(
                            p,
                        ) by {
                        if member_set(old_stack).contains(p) && !member_set(visited@).contains(p) {
                            let k = choose|k: int| 0 <= k < old_stack.len() && #[trigger] old_stack[k]@ == p;
                            if k < old_stack.len() - 1 {
                                assert(stack@[k]@ == p);
                            }
                        }
                    }
                    if member_set(old_stack).contains(s0) && !member_set(visited@).contains(s0) {
                        let k = choose|k: int| 0 <= k < old_stack.len() && #[trigger] old_stack[k]@ == s0;
                        if k < old_stack.len() - 1 {
                            assert(stack@[k]@ == s0);
                        }
                    }
                }
                continue;
            }
            let ghost mv = member@;
            let ghost path_m = choose|path: Seq<MemberView>|
                #[trigger] is_parent_path(v, path) && path[0] == s0 && path[path.len() - 1] == mv;
            proof {
                if path_m.len() > 1 {
                    assert(v.dom().contains(path_m[(path_m.len() - 2) + 1]));
                }
                assert(v.dom().contains(mv));
            }
            let entry = self.members.get(&member).unwrap();
            let md = entry.latest();
            proof {
                let j = self.members.index_of(mv);
                self.lemma_entry_view(j);
                assert(md.view() == v[mv]);
                assert(metadata_wf(*md));
            }
            // Collect the permissions that this member's rules grant.
            let ghost before = permissions@.to_set();
            let mut k: usize = 0;
            while k < md.permissions.entries.len()
                invariant
                    md.permissions.wf(),
                    k <= md.permissions.entries@.len(),
                    lv == strings_view(labels@),
                    permissions@.no_duplicates(),
                    permissions@.to_set() == before.union(
                        Set::new(
                            |a: ActionType|
                                exists|jj: int|
                                    0 <= jj < k && rule_applies_to_any(
                                        (#[trigger] md.permissions.entries@[jj]).0@,
                                        lv,
                                    ) && md.permissions.entries@[jj].1@.contains(a),
                        ),
                    ),
                decreases md.permissions.entries@.len() - k,
            {
                let ghost at_k = permissions@.to_set();
                if md.permissions.entries[k].0.applies_to_any(labels.as_slice()) {
                    let actions = &md.permissions.entries[k].1;
                    let mut t: usize = 0;
                    while t < actions.len()
                        invariant
                            t <= actions@.len(),
                            permissions@.no_duplicates(),
                            permissions@.to_set() == at_k.union(actions@.subrange(0, t as int).to_set()),
                        decreases actions@.len() - t,
                    {
                        let a = actions[t];
                        let mut present = false;
                        let mut q: usize = 0;
                        while q < permissions.len()
                            invariant
                                q <= permissions@.len(),
                                present == exists|z: int| 0 <= z < q && permissions@[z] == a,
                            decreases permissions@.len() - q,
                        {
                            if permissions[q] == a {
                                present = true;
                            }
                            q += 1;
                        }
                        let ghost pre = permissions@;
                        if !present {
                            permissions.push(a);
                            proof {
                                pre.lemma_push_to_set_commute(a);
                                assert(permissions@ == pre.push(a));
                            }
                        } else {
                            proof {
                                let z = choose|z: int| 0 <= z < q && permissions@[z] == a;
                                assert(pre.to_set().contains(a));
                                assert(pre.to_set().insert(a) =~= pre.to_set());
                            }
                        }
                        proof {
                            let sub0 = actions@.subrange(0, t as int);
                            let sub1 = actions@.subrange(0, t + 1);
                            assert(sub1 =~= sub0.push(a));
                            assert(sub1.to_set() =~= sub0.to_set().insert(a)) by {
                                assert forall|x: ActionType| sub1.contains(x) == (sub0.contains(x) || x == a) by {
                                    if sub1.contains(x) {
                                        let z = choose|z: int| 0 <= z < sub1.len() && sub1[z] == x;
                                        if z < sub0.len() {
                                            assert(sub0[z] == x);
                                        }
                                    }
                                    if sub0.contains(x) {
                                        let z = choose|z: int| 0 <= z < sub0.len() && sub0[z] == x;
                                        assert(sub1[z] == x);
                                    }
                                    if x == a {
                                        assert(sub1[t as int] == x);
                                    }
                                }
                            }
                            assert(permissions@.to_set() =~= at_k.union(sub1.to_set()));
                        }
                        t += 1;
                    }
                    proof {
                        assert(actions@.subrange(0, actions@.len() as int) =~= actions@);
                    }
                }
                proof {
                    let applies = rule_applies_to_any(md.permissions.entries@[k as int].0@, lv);
                    let s_k = Set::new(
                        |a: ActionType|
                            exists|jj: int|
                                0 <= jj < k && rule_applies_to_any(
                                    (#[trigger] md.permissions.entries@[jj]).0@,
                                    lv,
                                ) && md.permissions.entries@[jj].1@.contains(a),
                    );
                    let s_k1 = Set::new(
                        |a: ActionType|
                            exists|jj: int|
                                0 <= jj < k + 1 && rule_applies_to_any(
                                    (#[trigger] md.permissions.entries@[jj]).0@,
                                    lv,
                                ) && md.permissions.entries@[jj].1@.contains(a),
                    );
                    let cur = md.permissions.entries@[k as int].1@;
                    assert forall|a: ActionType| s_k1.contains(a) == (s_k.contains(a) || (applies && cur.contains(a))) by {
                        if s_k1.contains(a) {
                            let jj = choose|jj: int|
                                0 <= jj < k + 1 && rule_applies_to_any(
                                    (#[trigger] md.permissions.entries@[jj]).0@,
                                    lv,
                                ) && md.permissions.entries@[jj].1@.contains(a);
                            if jj < k {
                                assert(s_k.contains(a));
                            }
                        }
                        if applies && cur.contains(a) {
                            assert(0 <= k < k + 1 && rule_applies_to_any(
                                md.permissions.entries@[k as int].0@,
                                lv,
                            ) && md.permissions.entries@[k as int].1@.contains(a));
                        }
                    }
                    if applies {
                        assert(permissions@.to_set() =~= before.union(s_k1)) by {
                            assert forall|a: ActionType| cur.to_set().contains(a) == cur.contains(a) by {}
                        }
                    } else {
                        assert(permissions@.to_set() =~= before.union(s_k1));
                    }
                }
                k += 1;
            }
            proof {
                let s_all = Set::new(
                    |a: ActionType|
                        exists|jj: int|
                            0 <= jj < md.permissions.entries@.len() && rule_applies_to_any(
                                (#[trigger] md.permissions.entries@[jj]).0@,
                                lv,
                            ) && md.permissions.entries@[jj].1@.contains(a),
                );
                assert forall|a: ActionType| s_all.contains(a) == grants(v[mv], lv, a) by {
                    if s_all.contains(a) {
                        let jj = choose|jj: int|
                            0 <= jj < md.permissions.entries@.len() && rule_applies_to_any(
                                (#[trigger] md.permissions.entries@[jj]).0@,
                                lv,
                            ) && md.permissions.entries@[jj].1@.contains(a);
                        md.permissions.lemma_lookup(jj);
                        let r = md.permissions.entries@[jj].0@;
                        assert(v[mv].permissions.dom().contains(r));
                        assert(v[mv].permissions[r] == md.permissions.entries@[jj].1@.to_set());
                    }
                    if grants(v[mv], lv, a) {
                        let r = choose|r: RuleView|
                            #[trigger] v[mv].permissions.dom().contains(r) && rule_applies_to_any(r, lv)
                                && v[mv].permissions[r].contains(a);
                        let jj = md.permissions.index_of(r);
                        md.permissions.lemma_lookup(jj);
                        assert(md.permissions.entries@[jj].1@.to_set().contains(a));
                        assert(md.permissions.entries@[jj].1@.contains(a));
                    }
                }
            }
            // Continue with the member's parents.
            let ghost stack_before = stack@;
            let mut pi: usize = 0;
            while pi < md.parents.len()
                invariant
                    self.wf(),
                    v == self.view(),
                    v.dom().contains(mv),
                    md.view() == v[mv],
                    is_parent_path(v, path_m),
                    path_m[0] == s0,
                    path_m[path_m.len() - 1] == mv,
                    pi <= md.parents@.len(),
                    stack@.len() == stack_before.len() + pi,
                    forall|z: int| 0 <= z < stack_before.len() ==> stack@[z] == stack_before[z],
                    forall|z: int| 0 <= z < pi ==> #[trigger] stack@[stack_before.len() + z]@ == md.parents@[z]@,
                    forall|i: int| 0 <= i < stack@.len() ==> inherits_from(v, s0, #[trigger] stack@[i]@),
                decreases md.parents@.len() - pi,
            {
                let p = md.parents[pi].clone();
                proof {
                    let pv = md.parents@[pi as int]@;
                    assert(v[mv].parents.contains(pv));
                    let path2 = path_m.push(pv);
                    assert forall|i: int| 0 <= i < path2.len() - 1 implies v.dom().contains(
                        #[trigger] path2[i + 1],
                    ) && v[path2[i]].parents.contains(path2[i + 1]) by {
                        if i < path_m.len() - 1 {
                            assert(path2[i + 1] == path_m[i + 1]);
                            assert(path2[i] == path_m[i]);
                        }
                    }
                    assert(is_parent_path(v, path2));
                    assert(inherits_from(v, s0, pv));
                }
                stack.push(p);
                pi += 1;
            }
            let ghost visited_before = visited@;
            visited.push(member);
            proof {
                assert forall|x: MemberView| member_set(visited@).contains(x) == (member_set(visited_before).contains(x) || x == mv) by {
                    if member_set(visited@).contains(x) {
                        let z = choose|z: int| 0 <= z < visited@.len() && #[trigger] visited@[z]@ == x;
                        if z < visited_before.len() {
                            assert(visited_before[z]@ == x);
                        }
                    }
                    if member_set(visited_before).contains(x) {
                        let z = choose|z: int| 0 <= z < visited_before.len() && #[trigger] visited_before[z]@ == x;
                        assert(visited@[z]@ == x);
                    }
                    if x == mv {
                        assert(visited@[visited_before.len() as int]@ == x);
                    }
                }
                assert forall|x: MemberView| member_set(old_stack).contains(x) implies (member_set(stack@).contains(x) || x == mv) by {
                    if member_set(old_stack).contains(x) {
                        let z = choose|z: int| 0 <= z < old_stack.len() && #[trigger] old_stack[z]@ == x;
                        if z < old_stack.len() - 1 {
                            assert(stack_before[z] == old_stack[z]);
                            assert(stack@[z]@ == x);
                        }
                    }
                }
                assert forall|i: int, p: MemberView|
                    0 <= i < visited@.len() && #[trigger] v[visited@[i]@].parents.contains(p)
                        implies member_set(visited@).contains(p) || member_set(stack@).contains(p) by {
                    if i < visited_before.len() {
                        assert(visited_before[i]@ == visited@[i]@);
                        assert(member_set(visited_before).contains(p) || member_set(old_stack).contains(p));
                    } else {
                        assert(visited@[i]@ == mv);
                        assert(member_set(md.parents@).contains(p));
                        let z = choose|z: int| 0 <= z < md.parents@.len() && #[trigger] md.parents@[z]@ == p;
                        assert(stack@[stack_before.len() + z]@ == p);
                    }
                }
                assert(no_duplicate_members(visited@)) by {
                    assert forall|a: int, b: int| 0 <= a < b < visited@.len() implies #[trigger] visited@[a]@ != #[trigger] visited@[b]@ by {
                        if b == visited_before.len() {
                            assert(visited_before[a]@ == visited@[a]@);
                        } else {
                            assert(visited_before[a]@ != visited_before[b]@);
                        }
                    }
                }
                assert(permissions@.to_set() =~= Set::new(
                    |a: ActionType|
                        exists|i: int| 0 <= i < visited@.len() && grants(v[#[trigger] visited@[i]@], lv, a),
                )) by {
                    assert forall|a: ActionType| permissions@.to_set().contains(a) == (exists|i: int| 0 <= i < visited@.len() && grants(v[#[trigger] visited@[i]@], lv, a)) by {
                        if exists|i: int| 0 <= i < visited@.len() && grants(v[#[trigger] visited@[i]@], lv, a) {
                            let i = choose|i: int| 0 <= i < visited@.len() && grants(v[#[trigger] visited@[i]@], lv, a);
                            if i < visited_before.len() {
                                assert(visited_before[i]@ == visited@[i]@);
                            }
                        }
                        if before.contains(a) {
                            let i = choose|i: int| 0 <= i < visited_before.len() && grants(v[#[trigger] visited_before[i]@], lv, a);
                            assert(visited@[i]@ == visited_before[i]@);
                        }
                    }
                }
                assert forall|i: int| 0 <= i < visited@.len() implies inherits_from(v, s0, #[trigger] visited@[i]@) by {
                    if i < visited_before.len() {
                        assert(visited_before[i]@ == visited@[i]@);
                    }
                }
                assert forall|i: int| 0 <= i < visited@.len() implies v.dom().contains(
                    #[trigger] visited@[i]@,
                ) by {
                    if i < visited_before.len() {
                        assert(visited_before[i]@ == visited@[i]@);
                    }
                }
                self.lemma_visited_bound(visited@);
            }
        }
        proof {
            let vs = member_set(visited@);
            assert forall|a: ActionType| permissions@.to_set().contains(a) == permissions_for(v, account@, lv).contains(a) by {
                if permissions@.to_set().contains(a) {
                    let i = choose|i: int| 0 <= i < visited@.len() && grants(v[#[trigger] visited@[i]@], lv, a);
                    assert(inherits_from(v, s0, visited@[i]@));
                }
                if permissions_for(v, account@, lv).contains(a) {
                    let m = choose|m: MemberView| #[trigger] inherits_from(v, s0, m) && grants(v[m], lv, a);
                    let path = choose|path: Seq<MemberView>|
                        #[trigger] is_parent_path(v, path) && path[0] == s0 && path[path.len() - 1] == m;
                    assert forall|x: MemberView, p: MemberView|
                        vs.contains(x) && v.dom().contains(x) && #[trigger] v[x].parents.contains(p) implies vs.contains(p) by {
                        let z = choose|z: int| 0 <= z < visited@.len() && #[trigger] visited@[z]@ == x;
                        assert(v[visited@[z]@].parents.contains(p));
                    }
                    lemma_closed_contains_path(v, vs, path);
                    let z = choose|z: int| 0 <= z < visited@.len() && #[trigger] visited@[z]@ == m;
                    assert(grants(v[visited@[z]@], lv, a));
                }
            }
            assert(permissions@.to_set() =~= permissions_for(v, account@, lv));
        }
        permissions
    }

    /// The direct children of the `moderators` team.
    pub fn get_moderators(&self) -> (r: Vec<Member>)
        requires
            self.wf(),
        ensures
            member_set(r@) == (if self.view().dom().contains(moderators_team()) {
                self.view()[moderators_team()].children
            } else {
                Set::empty()
            }),
    {
        let team = Member::Team(moderators_string());
        match self.members.get(&team) {
            Some(md) => {
                proof {
                    let j = self.members.index_of(moderators_team());
                    self.lemma_entry_view(j);
                }
                clone_members(&md.latest().children)
            },
            None => {
                let r: Vec<Member> = Vec::new();
                assert(member_set(r@) =~= Set::<MemberView>::empty());
                r
            },
        }
    }
}

/// `md` with `m` added to its parents and/or children.
pub open spec fn link(md: MemberMetadataView, m: MemberView, add_parent: bool, add_child: bool) -> MemberMetadataView {
    MemberMetadataView {
        description: md.description,
        permissions: md.permissions,
        children: if add_child {
            md.children.insert(m)
        } else {
            md.children
        },
        parents: if add_parent {
            md.parents.insert(m)
        } else {
            md.parents
        },
    }
}

/// `md` with `m` taken out of its parents and/or children.
pub open spec fn unlink(md: MemberMetadataView, m: MemberView, drop_parent: bool, drop_child: bool) -> MemberMetadataView {
    MemberMetadataView {
        description: md.description,
        permissions: md.permissions,
        children: if drop_child {
            md.children.remove(m)
        } else {
            md.children
        },
        parents: if drop_parent {
            md.parents.remove(m)
        } else {
            md.parents
        },
    }
}

/// The metadata of `k` once `m` with metadata `md` is in the map, before links are added.
pub open spec fn add_base(
    v: Map<MemberView, MemberMetadataView>,
    m: MemberView,
    md: MemberMetadataView,
    k: MemberView,
) -> MemberMetadataView {
    if k == m {
        md
    } else {
        v[k]
    }
}

pub open spec fn child_missing(v: Map<MemberView, MemberMetadataView>, m: MemberView, md: MemberMetadataView) -> bool {
    exists|c: MemberView| #[trigger] md.children.contains(c) && c != m && !v.dom().contains(c)
}

pub open spec fn child_has_parent(v: Map<MemberView, MemberMetadataView>, m: MemberView, md: MemberMetadataView) -> bool {
    exists|c: MemberView|
        #[trigger] md.children.contains(c) && (c == m || v.dom().contains(c)) && add_base(
            v,
            m,
            md,
            c,
        ).parents.contains(m)
}

pub open spec fn parent_missing(v: Map<MemberView, MemberMetadataView>, m: MemberView, md: MemberMetadataView) -> bool {
    exists|p: MemberView| #[trigger] md.parents.contains(p) && p != m && !v.dom().contains(p)
}

pub open spec fn parent_has_child(v: Map<MemberView, MemberMetadataView>, m: MemberView, md: MemberMetadataView) -> bool {
    exists|p: MemberView|
        #[trigger] md.parents.contains(p) && (p == m || v.dom().contains(p)) && add_base(
            v,
            m,
            md,
            p,
        ).children.contains(m)
}

/// Adding `m` with `md` succeeds: `m` is new, every declared child and parent
/// exists, and none of them already lists `m` on the matching side.
pub open spec fn can_add(v: Map<MemberView, MemberMetadataView>, m: MemberView, md: MemberMetadataView) -> bool {
    &&& !v.dom().contains(m)
    &&& !child_missing(v, m, md)
    &&& !child_has_parent(v, m, md)
    &&& !parent_missing(v, m, md)
    &&& !parent_has_child(v, m, md)
}

/// The members after adding `m` with `md`: each declared child gets `m` as a
/// parent and each declared parent gets `m` as a child.
pub open spec fn after_add(v: Map<MemberView, MemberMetadataView>, m: MemberView, md: MemberMetadataView) -> Map<MemberView, MemberMetadataView> {
    Map::new(
        |k: MemberView| v.dom().contains(k) || k == m,
        |k: MemberView| link(add_base(v, m, md, k), m, md.children.contains(k), md.parents.contains(k)),
    )
}

/// Removing `m` succeeds: `m` is a member and is not its own child (its own
/// entry is gone by the time its children are updated).
pub open spec fn can_remove(v: Map<MemberView, MemberMetadataView>, m: MemberView) -> bool {
    v.dom().contains(m) && !v[m].children.contains(m) && !v[m].parents.contains(m)
}

/// The members after removing `m`: its children lose it as a parent and its
/// parents lose it as a child.
pub open spec fn after_remove(v: Map<MemberView, MemberMetadataView>, m: MemberView) -> Map<MemberView, MemberMetadataView> {
    Map::new(
        |k: MemberView| v.dom().contains(k) && k != m,
        |k: MemberView| unlink(v[k], m, v[m].children.contains(k), v[m].parents.contains(k)),
    )
}

impl MembersList {
    /// A deep copy.
    pub fn clone_list(&self) -> (r: MembersList)
        requires
            self.wf(),
        ensures
            r.wf(),
            r.view() == self.view(),
    {
        let mut entries: Vec<(Member, VersionedMemberMetadata)> = Vec::new();
        let mut i: usize = 0;
        while i < self.members.entries.len()
            invariant
                self.wf(),
                i <= self.members.entries@.len(),
                entries@.len() == i,
                forall|j: int|
                    0 <= j < i ==> (#[trigger] entries@[j]).0@ == self.members.entries@[j].0@
                        && entries@[j].1.view() == self.members.entries@[j].1.view()
                        && metadata_wf(entries@[j].1.inner()),
            decreases self.members.entries@.len() - i,
        {
            proof {
                self.lemma_entry_view(i as int);
            }
            let k = self.members.entries[i].0.clone();
            let md = self.members.entries[i].1.latest();
            let copy = MemberMetadata {
                description: md.description.clone(),
                permissions: clone_permissions(&md.permissions),
                children: clone_members(&md.children),
                parents: clone_members(&md.parents),
            };
            proof {
                assert(no_duplicate_members(copy.children@)) by {
                    assert forall|a: int, b: int| 0 <= a < b < copy.children@.len() implies #[trigger] copy.children@[a]@ != #[trigger] copy.children@[b]@ by {
                        assert(md.children@[a]@ != md.children@[b]@);
                    }
                }
                assert(no_duplicate_members(copy.parents@)) by {
                    assert forall|a: int, b: int| 0 <= a < b < copy.parents@.len() implies #[trigger] copy.parents@[a]@ != #[trigger] copy.parents@[b]@ by {
                        assert(md.parents@[a]@ != md.parents@[b]@);
                    }
                }
            }
            entries.push((k, VersionedMemberMetadata::V0(copy)));
            i += 1;
        }
        let r = MembersList { members: AssocMap { entries } };
        proof {
            let a_ = &self.members;
            let b_ = &r.members;
            assert forall|x: int, y: int|
                0 <= x < y < b_.entries@.len() implies #[trigger] b_.entries@[x].0@
                != #[trigger] b_.entries@[y].0@ by {
                assert(a_.entries@[x].0@ != a_.entries@[y].0@);
            }
            assert forall|k: MemberView| b_.has(k) == a_.has(k) by {
                if b_.has(k) {
                    let j = choose|j: int| 0 <= j < b_.entries@.len() && #[trigger] b_.entries@[j].0@ == k;
                    assert(a_.entries@[j].0@ == k);
                }
                if a_.has(k) {
                    let j = choose|j: int| 0 <= j < a_.entries@.len() && #[trigger] a_.entries@[j].0@ == k;
                    assert(b_.entries@[j].0@ == k);
                }
            }
            assert forall|k: MemberView| #[trigger] r.view().dom().contains(k) implies r.view()[k] == self.view()[k] by {
                let j = b_.index_of(k);
                b_.lemma_lookup(j);
                a_.lemma_lookup(j);
            }
            assert(r.view() =~= self.view());
        }
        r
    }

    /// The position of a member's entry; the member must be present.
    fn position(&self, m: &Member) -> (r: usize)
        requires
            self.wf(),
            self.view().dom().contains(m@),
        ensures
            r < self.members.entries@.len(),
            self.members.entries@[r as int].0@ == m@,
            self.members.entries@[r as int].1.view() == self.view()[m@],
            metadata_wf(self.members.entries@[r as int].1.inner()),
    {
        let i = self.members.find(m).unwrap();
        proof {
            self.lemma_entry_view(i as int);
        }
        i
    }

    /// Adds a member; every declared child gets it as a parent and every declared
    /// parent gets it as a child. On an error nothing changes. A member that
    /// exists already is refused first, then a wrong child, then a wrong parent;
    /// among several wrong children (or parents), which one is reported is left open.
    pub fn add_member(&mut self, member: Member, metadata: VersionedMemberMetadata) -> (r: Result<(), MembersError>)
        requires
            old(self).wf(),
            metadata_wf(metadata.inner()),
        ensures
            final(self).wf(),
            r is Ok <==> can_add(old(self).view(), member@, metadata.view()),
            r is Ok ==> final(self).view() == after_add(old(self).view(), member@, metadata.view()),
            r is Err ==> final(self).view() == old(self).view(),
            r == Err::<(), MembersError>(MembersError::MemberAlreadyExists) <==> old(self).view().dom().contains(member@),
            r == Err::<(), MembersError>(MembersError::ChildNotFound) ==> child_missing(old(self).view(), member@, metadata.view()),
            r == Err::<(), MembersError>(MembersError::ChildAlreadyHadParent) ==> child_has_parent(old(self).view(), member@, metadata.view()),
            r == Err::<(), MembersError>(MembersError::ParentNotFound) ==> parent_missing(old(self).view(), member@, metadata.view()),
            r == Err::<(), MembersError>(MembersError::ParentAlreadyHadChild) ==> parent_has_child(old(self).view(), member@, metadata.view()),
            r != Err::<(), MembersError>(MembersError::MemberNotFound),
            r matches Err(e) ==> add_error_holds(old(self).view(), member@, metadata.view(), e),
            !old(self).view().dom().contains(member@) && (child_missing(old(self).view(), member@, metadata.view())
                || child_has_parent(old(self).view(), member@, metadata.view())) ==> (r == Err::<(), MembersError>(
                MembersError::ChildNotFound) || r == Err::<(), MembersError>(MembersError::ChildAlreadyHadParent)),
    {
        let ghost v = self.view();
        let ghost mv = member@;
        let ghost mdv = metadata.view();
        if self.members.contains_key(&member) {
            return Err(MembersError::MemberAlreadyExists);
        }
        let md = metadata.latest();
        // Check every declared child before changing anything.
        let mut i: usize = 0;
        while i < md.children.len()
            invariant
                self.wf(),
                v == self.view(),
                v == old(self).view(),
                mdv == metadata.view(),
                !v.dom().contains(mv),
                mv == member@,
                mdv == md.view(),
                metadata_wf(*md),
                i <= md.children@.len(),
                forall|j: int| 0 <= j < i ==> {
                    let c = #[trigger] md.children@[j]@;
                    (c == mv || v.dom().contains(c)) && !add_base(v, mv, mdv, c).parents.contains(mv)
                },
            decreases md.children@.len() - i,
        {
            let c = &md.children[i];
            proof {
                assert(mdv.children.contains(c@));
            }
            if c.same_key(&member) {
                if contains_member(&md.parents, &member) {
                    assert(mdv.children.contains(c@) && (c@ == mv || v.dom().contains(c@))
                        && add_base(v, mv, mdv, c@).parents.contains(mv));
                    assert(child_has_parent(v, mv, mdv));
                    return Err(MembersError::ChildAlreadyHadParent);
                }
            } else {
                match self.members.get(c) {
                    None => {
                        assert(mdv.children.contains(c@) && c@ != mv && !v.dom().contains(c@));
                        return Err(MembersError::ChildNotFound);
                    },
                    Some(e) => {
                        proof {
                            let j = self.members.index_of(c@);
                            self.lemma_entry_view(j);
                        }
                        if contains_member(&e.latest().parents, &member) {
                            assert(mdv.children.contains(c@) && (c@ == mv || v.dom().contains(c@))
                                && add_base(v, mv, mdv, c@).parents.contains(mv));
                            return Err(MembersError::ChildAlreadyHadParent);
                        }
                    },
                }
            }
            i += 1;
        }
        proof {
            assert(!child_missing(v, mv, mdv)) by {
                if child_missing(v, mv, mdv) {
                    let c = choose|c: MemberView| #[trigger] mdv.children.contains(c) && c != mv && !v.dom().contains(c);
                    let j = choose|j: int| 0 <= j < md.children@.len() && #[trigger] md.children@[j]@ == c;
                }
            }
            assert(!child_has_parent(v, mv, mdv)) by {
                if child_has_parent(v, mv, mdv) {
                    let c = choose|c: MemberView| #[trigger] mdv.children.contains(c) && (c == mv || v.dom().contains(c)) && add_base(v, mv, mdv, c).parents.contains(mv);
                    let j = choose|j: int| 0 <= j < md.children@.len() && #[trigger] md.children@[j]@ == c;
                }
            }
        }
        let mut i: usize = 0;
        while i < md.parents.len()
            invariant
                !child_missing(v, mv, mdv),
                !child_has_parent(v, mv, mdv),
                self.wf(),
                v == self.view(),
                v == old(self).view(),
                mdv == metadata.view(),
                !v.dom().contains(mv),
                mv == member@,
                mdv == md.view(),
                metadata_wf(*md),
                i <= md.parents@.len(),
                forall|j: int| 0 <= j < i ==> {
                    let p = #[trigger] md.parents@[j]@;
                    (p == mv || v.dom().contains(p)) && !add_base(v, mv, mdv, p).children.contains(mv)
                },
            decreases md.parents@.len() - i,
        {
            let p = &md.parents[i];
            proof {
                assert(mdv.parents.contains(p@));
            }
            if p.same_key(&member) {
                if contains_member(&md.children, &member) {
                    assert(mdv.parents.contains(p@) && (p@ == mv || v.dom().contains(p@))
                        && add_base(v, mv, mdv, p@).children.contains(mv));
                    assert(parent_has_child(v, mv, mdv));
                    return Err(MembersError::ParentAlreadyHadChild);
                }
            } else {
                match self.members.get(p) {
                    None => {
                        assert(mdv.parents.contains(p@) && p@ != mv && !v.dom().contains(p@));
                        return Err(MembersError::ParentNotFound);
                    },
                    Some(e) => {
                        proof {
                            let j = self.members.index_of(p@);
                            self.lemma_entry_view(j);
                        }
                        if contains_member(&e.latest().children, &member) {
                            assert(mdv.parents.contains(p@) && (p@ == mv || v.dom().contains(p@))
                                && add_base(v, mv, mdv, p@).children.contains(mv));
                            return Err(MembersError::ParentAlreadyHadChild);
                        }
                    },
                }
            }
            i += 1;
        }
        proof {
            assert(!parent_missing(v, mv, mdv)) by {
                if parent_missing(v, mv, mdv) {
                    let c = choose|c: MemberView| #[trigger] mdv.parents.contains(c) && c != mv && !v.dom().contains(c);
                    let j = choose|j: int| 0 <= j < md.parents@.len() && #[trigger] md.parents@[j]@ == c;
                }
            }
            assert(!parent_has_child(v, mv, mdv)) by {
                if parent_has_child(v, mv, mdv) {
                    let c = choose|c: MemberView| #[trigger] mdv.parents.contains(c) && (c == mv || v.dom().contains(c)) && add_base(v, mv, mdv, c).children.contains(mv);
                    let j = choose|j: int| 0 <= j < md.parents@.len() && #[trigger] md.parents@[j]@ == c;
                }
            }
        }
        let children = clone_members(&md.children);
        let parents = clone_members(&md.parents);
        let key = member.clone();
        self.members.insert(key, metadata);
        proof {
            assert forall|j: int| 0 <= j < self.members.entries@.len() implies metadata_wf(
                (#[trigger] self.members.entries@[j]).1.inner(),
            ) by {
                if j < self.members.entries@.len() - 1 {
                    assert(self.members.entries@[j] == old(self).members.entries@[j]);
                }
            }
            let target = Map::new(
                |k: MemberView| v.dom().contains(k) || k == mv,
                |k: MemberView| link(add_base(v, mv, mdv, k), mv, member_set(children@.subrange(0, 0)).contains(k), false),
            );
            assert forall|k: MemberView| #[trigger] target.dom().contains(k) implies target[k] == add_base(v, mv, mdv, k) by {
                assert(!member_set(children@.subrange(0, 0)).contains(k));
                assert(target[k] =~= add_base(v, mv, mdv, k));
            }
            assert(self.view() =~= target);
        }
        let mut i: usize = 0;
        while i < children.len()
            invariant
                self.members.wf(),
                forall|j: int| 0 <= j < self.members.entries@.len() ==> metadata_wf(
                    (#[trigger] self.members.entries@[j]).1.inner(),
                ),
                mv == member@,
                !v.dom().contains(mv),
                i <= children@.len(),
                children@.len() == md.children@.len(),
                forall|j: int| 0 <= j < children@.len() ==> #[trigger] children@[j]@ == md.children@[j]@,
                mdv == md.view(),
                metadata_wf(*md),
                forall|j: int| 0 <= j < md.children@.len() ==> {
                    let c = #[trigger] md.children@[j]@;
                    (c == mv || v.dom().contains(c)) && !add_base(v, mv, mdv, c).parents.contains(mv)
                },
                self.view() == Map::new(
                    |k: MemberView| v.dom().contains(k) || k == mv,
                    |k: MemberView| link(add_base(v, mv, mdv, k), mv, member_set(children@.subrange(0, i as int)).contains(k), false),
                ),
            decreases children@.len() - i,
        {
            let ghost cv = children@[i as int]@;
            proof {
                assert(md.children@[i as int]@ == cv);
                assert(self.view().dom().contains(cv));
                assert(!member_set(children@.subrange(0, i as int)).contains(cv)) by {
                    if member_set(children@.subrange(0, i as int)).contains(cv) {
                        let z = choose|z: int| 0 <= z < i && #[trigger] children@.subrange(0, i as int)[z]@ == cv;
                        assert(children@[z]@ == cv);
                        assert(md.children@[z]@ != md.children@[i as int]@);
                    }
                }
            }
            let idx = self.members.find(&children[i]).unwrap();
            proof {
                self.members.lemma_lookup(idx as int);
                assert(metadata_wf(self.members.entries@[idx as int].1.inner()));
            }
            let mut cm = self.members.entries[idx].1.last_version();
            let ghost before_parents = cm.parents@;
            proof {
                assert(self.view()[cv] == self.members.entries@[idx as int].1.view());
                assert(self.view()[cv].parents == add_base(v, mv, mdv, cv).parents);
                assert(member_set(before_parents) == add_base(v, mv, mdv, cv).parents);
                let jc = choose|jc: int| 0 <= jc < md.children@.len() && #[trigger] md.children@[jc]@ == cv;
                assert(md.children@[i as int]@ == cv);
                assert(!add_base(v, mv, mdv, md.children@[i as int]@).parents.contains(mv));
                assert(!member_set(before_parents).contains(mv));
            }
            let mc = member.clone();
            cm.parents.push(mc);
            assert(cm.parents@ == before_parents.push(mc));
            proof {
                assert(member_set(cm.parents@) =~= member_set(before_parents).insert(mv)) by {
                    assert forall|x: MemberView| member_set(cm.parents@).contains(x) == (member_set(before_parents).contains(x) || x == mv) by {
                        if member_set(cm.parents@).contains(x) {
                            let z = choose|z: int| 0 <= z < cm.parents@.len() && #[trigger] cm.parents@[z]@ == x;
                            if z < before_parents.len() {
                                assert(before_parents[z]@ == x);
                            }
                        }
                        if member_set(before_parents).contains(x) {
                            let z = choose|z: int| 0 <= z < before_parents.len() && #[trigger] before_parents[z]@ == x;
                            assert(cm.parents@[z]@ == x);
                        }
                        if x == mv {
                            assert(cm.parents@[before_parents.len() as int]@ == x);
                        }
                    }
                }
                assert(no_duplicate_members(cm.parents@)) by {
                    assert forall|a: int, b: int| 0 <= a < b < cm.parents@.len() implies #[trigger] cm.parents@[a]@ != #[trigger] cm.parents@[b]@ by {
                        if b == before_parents.len() {
                            assert(before_parents[a]@ == cm.parents@[a]@);
                            assert(member_set(before_parents).contains(before_parents[a]@));
                        } else {
                            assert(before_parents[a]@ != before_parents[b]@);
                        }
                    }
                }
            }
            let ghost prev_view = self.view();
            self.members.set_value(idx, VersionedMemberMetadata::V0(cm));
            proof {
                let s0 = member_set(children@.subrange(0, i as int));
                let s1 = member_set(children@.subrange(0, i + 1));
                assert forall|k: MemberView| s1.contains(k) == (s0.contains(k) || k == cv) by {
                    if s1.contains(k) {
                        let z = choose|z: int| 0 <= z < i + 1 && #[trigger] children@.subrange(0, i + 1)[z]@ == k;
                        if z < i {
                            assert(children@.subrange(0, i as int)[z]@ == k);
                        }
                    }
                    if s0.contains(k) {
                        let z = choose|z: int| 0 <= z < i && #[trigger] children@.subrange(0, i as int)[z]@ == k;
                        assert(children@.subrange(0, i + 1)[z]@ == k);
                    }
                    if k == cv {
                        assert(children@.subrange(0, i + 1)[i as int]@ == k);
                    }
                }
                assert forall|j: int| 0 <= j < self.members.entries@.len() implies metadata_wf(
                    (#[trigger] self.members.entries@[j]).1.inner(),
                ) by {

                }
                let target = Map::new(
                    |k: MemberView| v.dom().contains(k) || k == mv,
                    |k: MemberView| link(add_base(v, mv, mdv, k), mv, s1.contains(k), false),
                );
                assert forall|k: MemberView| #[trigger] self.view().dom().contains(k) == target.dom().contains(k) by {
                    assert(self.members.map().dom().contains(k) == prev_view.dom().contains(k));
                }
                assert forall|k: MemberView| #[trigger] self.view().dom().contains(k) implies self.view()[k] == target[k] by {
                    if k == cv {
                        assert(self.view()[k] =~= target[k]);
                    } else {
                        assert(self.view()[k] == prev_view[k]);
                        assert(target[k] =~= prev_view[k]);
                    }
                }
                assert(self.view() =~= target);
            }
            i += 1;
        }
        proof {
            assert(member_set(children@.subrange(0, children@.len() as int)) =~= mdv.children) by {
                assert(children@.subrange(0, children@.len() as int) =~= children@);
                assert forall|x: MemberView| member_set(children@).contains(x) == mdv.children.contains(x) by {
                    if member_set(children@).contains(x) {
                        let z = choose|z: int| 0 <= z < children@.len() && #[trigger] children@[z]@ == x;
                        assert(md.children@[z]@ == x);
                    }
                    if mdv.children.contains(x) {
                        let z = choose|z: int| 0 <= z < md.children@.len() && #[trigger] md.children@[z]@ == x;
                        assert(children@[z]@ == x);
                    }
                }
            }
            let target = Map::new(
                |k: MemberView| v.dom().contains(k) || k == mv,
                |k: MemberView| link(add_base(v, mv, mdv, k), mv, mdv.children.contains(k), member_set(parents@.subrange(0, 0)).contains(k)),
            );
            assert forall|k: MemberView| #[trigger] self.view().dom().contains(k) implies self.view()[k] == target[k] by {
                assert(!member_set(parents@.subrange(0, 0)).contains(k));
                assert(self.view()[k] =~= target[k]);
            }
            assert(self.view() =~= target);
        }
        let mut i: usize = 0;
        while i < parents.len()
            invariant
                self.members.wf(),
                forall|j: int| 0 <= j < self.members.entries@.len() ==> metadata_wf(
                    (#[trigger] self.members.entries@[j]).1.inner(),
                ),
                mv == member@,
                !v.dom().contains(mv),
                i <= parents@.len(),
                parents@.len() == md.parents@.len(),
                forall|j: int| 0 <= j < parents@.len() ==> #[trigger] parents@[j]@ == md.parents@[j]@,
                mdv == md.view(),
                metadata_wf(*md),
                forall|j: int| 0 <= j < md.parents@.len() ==> {
                    let p = #[trigger] md.parents@[j]@;
                    (p == mv || v.dom().contains(p)) && !add_base(v, mv, mdv, p).children.contains(mv)
                },
                self.view() == Map::new(
                    |k: MemberView| v.dom().contains(k) || k == mv,
                    |k: MemberView| link(add_base(v, mv, mdv, k), mv, mdv.children.contains(k), member_set(parents@.subrange(0, i as int)).contains(k)),
                ),
            decreases parents@.len() - i,
        {
            let ghost pv = parents@[i as int]@;
            proof {
                assert(md.parents@[i as int]@ == pv);
                assert(self.view().dom().contains(pv));
                assert(!member_set(parents@.subrange(0, i as int)).contains(pv)) by {
                    if member_set(parents@.subrange(0, i as int)).contains(pv) {
                        let z = choose|z: int| 0 <= z < i && #[trigger] parents@.subrange(0, i as int)[z]@ == pv;
                        assert(parents@[z]@ == pv);
                        assert(md.parents@[z]@ != md.parents@[i as int]@);
                    }
                }
            }
            let idx = self.members.find(&parents[i]).unwrap();
            proof {
                self.members.lemma_lookup(idx as int);
                assert(metadata_wf(self.members.entries@[idx as int].1.inner()));
            }
            let mut pm = self.members.entries[idx].1.last_version();
            let ghost before_children = pm.children@;
            proof {
                assert(self.view()[pv] == self.members.entries@[idx as int].1.view());
                assert(self.view()[pv].children == add_base(v, mv, mdv, pv).children);
                assert(member_set(before_children) == add_base(v, mv, mdv, pv).children);
                assert(md.parents@[i as int]@ == pv);
                assert(!add_base(v, mv, mdv, md.parents@[i as int]@).children.contains(mv));
                assert(!member_set(before_children).contains(mv));
            }
            let mc = member.clone();
            pm.children.push(mc);
            assert(pm.children@ == before_children.push(mc));
            proof {
                assert(member_set(pm.children@) =~= member_set(before_children).insert(mv)) by {
                    assert forall|x: MemberView| member_set(pm.children@).contains(x) == (member_set(before_children).contains(x) || x == mv) by {
                        if member_set(pm.children@).contains(x) {
                            let z = choose|z: int| 0 <= z < pm.children@.len() && #[trigger] pm.children@[z]@ == x;
                            if z < before_children.len() {
                                assert(before_children[z]@ == x);
                            }
                        }
                        if member_set(before_children).contains(x) {
                            let z = choose|z: int| 0 <= z < before_children.len() && #[trigger] before_children[z]@ == x;
                            assert(pm.children@[z]@ == x);
                        }
                        if x == mv {
                            assert(pm.children@[before_children.len() as int]@ == x);
                        }
                    }
                }
                assert(no_duplicate_members(pm.children@)) by {
                    assert forall|a: int, b: int| 0 <= a < b < pm.children@.len() implies #[trigger] pm.children@[a]@ != #[trigger] pm.children@[b]@ by {
                        if b == before_children.len() {
                            assert(before_children[a]@ == pm.children@[a]@);
                            assert(member_set(before_children).contains(before_children[a]@));
                        } else {
                            assert(before_children[a]@ != before_children[b]@);
                        }
                    }
                }
            }
            let ghost prev_view = self.view();
            self.members.set_value(idx, VersionedMemberMetadata::V0(pm));
            proof {
                let s0 = member_set(parents@.subrange(0, i as int));
                let s1 = member_set(parents@.subrange(0, i + 1));
                assert forall|k: MemberView| s1.contains(k) == (s0.contains(k) || k == pv) by {
                    if s1.contains(k) {
                        let z = choose|z: int| 0 <= z < i + 1 && #[trigger] parents@.subrange(0, i + 1)[z]@ == k;
                        if z < i {
                            assert(parents@.subrange(0, i as int)[z]@ == k);
                        }
                    }
                    if s0.contains(k) {
                        let z = choose|z: int| 0 <= z < i && #[trigger] parents@.subrange(0, i as int)[z]@ == k;
                        assert(parents@.subrange(0, i + 1)[z]@ == k);
                    }
                    if k == pv {
                        assert(parents@.subrange(0, i + 1)[i as int]@ == k);
                    }
                }
                let target = Map::new(
                    |k: MemberView| v.dom().contains(k) || k == mv,
                    |k: MemberView| link(add_base(v, mv, mdv, k), mv, mdv.children.contains(k), s1.contains(k)),
                );
                assert forall|k: MemberView| #[trigger] self.view().dom().contains(k) == target.dom().contains(k) by {
                    assert(self.members.map().dom().contains(k) == prev_view.dom().contains(k));
                }
                assert forall|k: MemberView| #[trigger] self.view().dom().contains(k) implies self.view()[k] == target[k] by {
                    if k == pv {
                        assert(self.view()[k] =~= target[k]);
                    } else {
                        assert(self.view()[k] == prev_view[k]);
                        assert(target[k] =~= prev_view[k]);
                    }
                }
                assert(self.view() =~= target);
            }
            i += 1;
        }
        proof {
            assert(member_set(parents@.subrange(0, parents@.len() as int)) =~= mdv.parents) by {
                assert(parents@.subrange(0, parents@.len() as int) =~= parents@);
                assert forall|x: MemberView| member_set(parents@).contains(x) == mdv.parents.contains(x) by {
                    if member_set(parents@).contains(x) {
                        let z = choose|z: int| 0 <= z < parents@.len() && #[trigger] parents@[z]@ == x;
                        assert(md.parents@[z]@ == x);
                    }
                    if mdv.parents.contains(x) {
                        let z = choose|z: int| 0 <= z < md.parents@.len() && #[trigger] md.parents@[z]@ == x;
                        assert(parents@[z]@ == x);
                    }
                }
            }
            assert(self.view() =~= after_add(v, mv, mdv));
            lemma_add_keeps_links(v, mv, mdv);
        }
        Ok(())
    }
}

/// Takes `m` out of a list of members.
fn drop_member(s: &mut Vec<Member>, m: &Member)
    requires
        no_duplicate_members(old(s)@),
    ensures
        no_duplicate_members(final(s)@),
        member_set(final(s)@) == member_set(old(s)@).remove(m@),
{
    let ghost orig = s@;
    let mut out: Vec<Member> = Vec::new();
    let mut i: usize = 0;
    while i < s.len()
        invariant
            s@ == orig,
            no_duplicate_members(orig),
            i <= orig.len(),
            no_duplicate_members(out@),
            member_set(out@) == member_set(orig.subrange(0, i as int)).remove(m@),
        decreases orig.len() - i,
    {
        let ghost before = out@;
        let x = &s[i];
        if !x.same_key(m) {
            let y = x.clone();
            out.push(y);
            proof {
                assert forall|a: int, b: int| 0 <= a < b < out@.len() implies #[trigger] out@[a]@ != #[trigger] out@[b]@ by {
                    if b == before.len() {
                        assert(before[a]@ == out@[a]@);
                        assert(member_set(before).contains(before[a]@));
                        let z = choose|z: int| 0 <= z < i && #[trigger] orig.subrange(0, i as int)[z]@ == before[a]@;
                        assert(orig[z]@ != orig[i as int]@);
                    } else {
                        assert(before[a]@ != before[b]@);
                    }
                }
            }
        }
        proof {
            let s0 = orig.subrange(0, i as int);
            let s1 = orig.subrange(0, i + 1);
            assert forall|k: MemberView| member_set(out@).contains(k) == member_set(s1).remove(m@).contains(k) by {
                if member_set(out@).contains(k) {
                    let z = choose|z: int| 0 <= z < out@.len() && #[trigger] out@[z]@ == k;
                    if z < before.len() {
                        assert(before[z]@ == k);
                        assert(member_set(before).contains(k));
                        let w = choose|w: int| 0 <= w < i && #[trigger] s0[w]@ == k;
                        assert(s1[w]@ == k);
                    } else {
                        assert(s1[i as int]@ == k);
                    }
                }
                if member_set(s1).contains(k) && k != m@ {
                    let w = choose|w: int| 0 <= w < i + 1 && #[trigger] s1[w]@ == k;
                    if w < i {
                        assert(s0[w]@ == k);
                        assert(member_set(before).contains(k));
                        let z = choose|z: int| 0 <= z < before.len() && #[trigger] before[z]@ == k;
                        assert(out@[z]@ == k);
                    } else {
                        assert(out@[before.len() as int]@ == k);
                    }
                }
            }
            assert(member_set(out@) =~= member_set(s1).remove(m@));
        }
        i += 1;
    }
    proof {
        assert(orig.subrange(0, orig.len() as int) =~= orig);
    }
    *s = out;
}

/// The error that removing `m` reports when it fails.
pub open spec fn remove_error(v: Map<MemberView, MemberMetadataView>, m: MemberView) -> MembersError {
    if !v.dom().contains(m) {
        MembersError::MemberNotFound
    } else {
        MembersError::ChildNotFound
    }
}

/// The condition under which adding reports error `e`.
pub open spec fn add_error_holds(
    v: Map<MemberView, MemberMetadataView>,
    m: MemberView,
    md: MemberMetadataView,
    e: MembersError,
) -> bool {
    match e {
        MembersError::MemberAlreadyExists => v.dom().contains(m),
        MembersError::ChildNotFound => child_missing(v, m, md),
        MembersError::ChildAlreadyHadParent => child_has_parent(v, m, md),
        MembersError::ParentNotFound => parent_missing(v, m, md),
        MembersError::ParentAlreadyHadChild => parent_has_child(v, m, md),
        MembersError::MemberNotFound => false,
    }
}

impl MembersList {
    /// Removes a member; its children lose it as a parent and its parents lose it
    /// as a child. On an error nothing changes.
    pub fn remove_member(&mut self, member: &Member) -> (r: Result<(), MembersError>)
        requires
            old(self).wf(),
        ensures
            final(self).wf(),
            r is Ok <==> can_remove(old(self).view(), member@),
            r is Ok ==> final(self).view() == after_remove(old(self).view(), member@),
            r is Err ==> final(self).view() == old(self).view(),
            r matches Err(e) ==> e == remove_error(old(self).view(), member@),
    {
        let ghost v = self.view();
        let ghost mv = member@;
        let idx = match self.members.find(member) {
            None => {
                return Err(MembersError::MemberNotFound);
            },
            Some(i) => i,
        };
        proof {
            self.lemma_entry_view(idx as int);
        }
        let md = self.members.entries[idx].1.latest();
        let ghost mdv = md.view();
        if contains_member(&md.children, member) {
            return Err(MembersError::ChildNotFound);
        }
        proof {
            assert(!v[mv].parents.contains(mv)) by {
                if v[mv].parents.contains(mv) {
                    assert(v[mv].children.contains(mv));
                }
            }
        }
        let children = clone_members(&md.children);
        let parents = clone_members(&md.parents);
        self.members.remove(member);
        proof {
            assert forall|j: int| 0 <= j < self.members.entries@.len() implies metadata_wf(
                (#[trigger] self.members.entries@[j]).1.inner(),
            ) by {
                let k = self.members.entries@[j].0@;
                self.members.lemma_lookup(j);
                assert(old(self).members.map().dom().contains(k));
                let oj = old(self).members.index_of(k);
                old(self).lemma_entry_view(oj);
                assert(self.members.entries@[j].1 == old(self).members.entries@[oj].1);
            }
            let target = Map::new(
                |k: MemberView| v.dom().contains(k) && k != mv,
                |k: MemberView| unlink(v[k], mv, member_set(children@.subrange(0, 0)).contains(k), false),
            );
            assert forall|k: MemberView| #[trigger] self.view().dom().contains(k) implies self.view()[k] == target[k] by {
                assert(!member_set(children@.subrange(0, 0)).contains(k));
                assert(self.view()[k] =~= target[k]);
            }
            assert(self.view() =~= target);
        }
        let mut i: usize = 0;
        while i < children.len()
            invariant
                self.members.wf(),
                forall|j: int| 0 <= j < self.members.entries@.len() ==> metadata_wf(
                    (#[trigger] self.members.entries@[j]).1.inner(),
                ),
                v == old(self).view(),
                links_consistent(v),
                mv == member@,
                v.dom().contains(mv),
                mdv == v[mv],
                !mdv.children.contains(mv),
                !mdv.parents.contains(mv),
                i <= children@.len(),
                no_duplicate_members(children@),
                member_set(children@) == mdv.children,
                self.view() == Map::new(
                    |k: MemberView| v.dom().contains(k) && k != mv,
                    |k: MemberView| unlink(v[k], mv, member_set(children@.subrange(0, i as int)).contains(k), false),
                ),
            decreases children@.len() - i,
        {
            let ghost cv = children@[i as int]@;
            proof {
                assert(member_set(children@).contains(cv));
                assert(v[mv].children.contains(cv));
                assert(v.dom().contains(cv) && v[cv].parents.contains(mv));
                assert(cv != mv);
                assert(self.view().dom().contains(cv));
            }
            let cidx = self.members.find(&children[i]).unwrap();
            proof {
                self.members.lemma_lookup(cidx as int);
            }
            let mut cm = self.members.entries[cidx].1.last_version();
            drop_member(&mut cm.parents, member);
            let ghost prev_view = self.view();
            self.members.set_value(cidx, VersionedMemberMetadata::V0(cm));
            proof {
                let s0 = member_set(children@.subrange(0, i as int));
                let s1 = member_set(children@.subrange(0, i + 1));
                assert forall|k: MemberView| s1.contains(k) == (s0.contains(k) || k == cv) by {
                    if s1.contains(k) {
                        let z = choose|z: int| 0 <= z < i + 1 && #[trigger] children@.subrange(0, i + 1)[z]@ == k;
                        if z < i {
                            assert(children@.subrange(0, i as int)[z]@ == k);
                        }
                    }
                    if s0.contains(k) {
                        let z = choose|z: int| 0 <= z < i && #[trigger] children@.subrange(0, i as int)[z]@ == k;
                        assert(children@.subrange(0, i + 1)[z]@ == k);
                    }
                    if k == cv {
                        assert(children@.subrange(0, i + 1)[i as int]@ == k);
                    }
                }
                assert(!s0.contains(cv)) by {
                    if s0.contains(cv) {
                        let z = choose|z: int| 0 <= z < i && #[trigger] children@.subrange(0, i as int)[z]@ == cv;
                        assert(children@[z]@ == cv);
                        assert(children@[z]@ != children@[i as int]@);
                    }
                }
                assert(prev_view[cv] =~= v[cv]);
                let target = Map::new(
                    |k: MemberView| v.dom().contains(k) && k != mv,
                    |k: MemberView| unlink(v[k], mv, s1.contains(k), false),
                );
                assert forall|k: MemberView| #[trigger] self.view().dom().contains(k) == target.dom().contains(k) by {
                    assert(self.members.map().dom().contains(k) == prev_view.dom().contains(k));
                }
                assert forall|k: MemberView| #[trigger] self.view().dom().contains(k) implies self.view()[k] == target[k] by {
                    if k == cv {
                        assert(self.view()[k] =~= target[k]);
                    } else {
                        assert(self.view()[k] == prev_view[k]);
                        assert(target[k] =~= prev_view[k]);
                    }
                }
                assert(self.view() =~= target);
            }
            i += 1;
        }
        proof {
            assert(children@.subrange(0, children@.len() as int) =~= children@);
            let target = Map::new(
                |k: MemberView| v.dom().contains(k) && k != mv,
                |k: MemberView| unlink(v[k], mv, mdv.children.contains(k), member_set(parents@.subrange(0, 0)).contains(k)),
            );
            assert forall|k: MemberView| #[trigger] self.view().dom().contains(k) implies self.view()[k] == target[k] by {
                assert(!member_set(parents@.subrange(0, 0)).contains(k));
                assert(self.view()[k] =~= target[k]);
            }
            assert(self.view() =~= target);
        }
        let mut i: usize = 0;
        while i < parents.len()
            invariant
                self.members.wf(),
                forall|j: int| 0 <= j < self.members.entries@.len() ==> metadata_wf(
                    (#[trigger] self.members.entries@[j]).1.inner(),
                ),
                v == old(self).view(),
                links_consistent(v),
                mv == member@,
                v.dom().contains(mv),
                mdv == v[mv],
                !mdv.children.contains(mv),
                !mdv.parents.contains(mv),
                i <= parents@.len(),
                no_duplicate_members(parents@),
                member_set(parents@) == mdv.parents,
                self.view() == Map::new(
                    |k: MemberView| v.dom().contains(k) && k != mv,
                    |k: MemberView| unlink(v[k], mv, mdv.children.contains(k), member_set(parents@.subrange(0, i as int)).contains(k)),
                ),
            decreases parents@.len() - i,
        {
            let ghost pv = parents@[i as int]@;
            proof {
                assert(member_set(parents@).contains(pv));
                assert(v[mv].parents.contains(pv));
                assert(v.dom().contains(pv) && v[pv].children.contains(mv));
                assert(pv != mv);
                assert(self.view().dom().contains(pv));
            }
            let pidx = self.members.find(&parents[i]).unwrap();
            proof {
                self.members.lemma_lookup(pidx as int);
            }
            let mut pm = self.members.entries[pidx].1.last_version();
            drop_member(&mut pm.children, member);
            let ghost prev_view = self.view();
            self.members.set_value(pidx, VersionedMemberMetadata::V0(pm));
            proof {
                let s0 = member_set(parents@.subrange(0, i as int));
                let s1 = member_set(parents@.subrange(0, i + 1));
                assert forall|k: MemberView| s1.contains(k) == (s0.contains(k) || k == pv) by {
                    if s1.contains(k) {
                        let z = choose|z: int| 0 <= z < i + 1 && #[trigger] parents@.subrange(0, i + 1)[z]@ == k;
                        if z < i {
                            assert(parents@.subrange(0, i as int)[z]@ == k);
                        }
                    }
                    if s0.contains(k) {
                        let z = choose|z: int| 0 <= z < i && #[trigger] parents@.subrange(0, i as int)[z]@ == k;
                        assert(parents@.subrange(0, i + 1)[z]@ == k);
                    }
                    if k == pv {
                        assert(parents@.subrange(0, i + 1)[i as int]@ == k);
                    }
                }
                assert(!s0.contains(pv)) by {
                    if s0.contains(pv) {
                        let z = choose|z: int| 0 <= z < i && #[trigger] parents@.subrange(0, i as int)[z]@ == pv;
                        assert(parents@[z]@ == pv);
                        assert(parents@[z]@ != parents@[i as int]@);
                    }
                }
                assert(prev_view[pv] == unlink(v[pv], mv, mdv.children.contains(pv), s0.contains(pv)));
                assert(self.members.map()[pv].view() == unlink(prev_view[pv], mv, false, true));
                let target = Map::new(
                    |k: MemberView| v.dom().contains(k) && k != mv,
                    |k: MemberView| unlink(v[k], mv, mdv.children.contains(k), s1.contains(k)),
                );
                assert forall|k: MemberView| #[trigger] self.view().dom().contains(k) == target.dom().contains(k) by {
                    assert(self.members.map().dom().contains(k) == prev_view.dom().contains(k));
                }
                assert forall|k: MemberView| #[trigger] self.view().dom().contains(k) implies self.view()[k] == target[k] by {
                    if k == pv {
                        assert(self.view()[k] =~= target[k]);
                    } else {
                        assert(self.view()[k] == prev_view[k]);
                        assert(target[k] =~= prev_view[k]);
                    }
                }
                assert(self.view() =~= target);
            }
            i += 1;
        }
        proof {
            assert(parents@.subrange(0, parents@.len() as int) =~= parents@);
            assert(self.view() =~= after_remove(v, mv));
            lemma_remove_keeps_links(v, mv);
        }
        Ok(())
    }

    /// Replaces a member's metadata: a removal followed by an addition, applied
    /// only when both succeed.
    pub fn edit_member(&mut self, member: Member, metadata: VersionedMemberMetadata) -> (r: Result<(), MembersError>)
        requires
            old(self).wf(),
            metadata_wf(metadata.inner()),
        ensures
            final(self).wf(),
            r is Ok <==> can_remove(old(self).view(), member@) && can_add(
                after_remove(old(self).view(), member@),
                member@,
                metadata.view(),
            ),
            r is Ok ==> final(self).view() == after_add(
                after_remove(old(self).view(), member@),
                member@,
                metadata.view(),
            ),
            r is Err ==> final(self).view() == old(self).view(),
            r matches Err(e) ==> (!can_remove(old(self).view(), member@) && e == remove_error(
                old(self).view(),
                member@,
            )) || (can_remove(old(self).view(), member@) && add_error_holds(
                after_remove(old(self).view(), member@),
                member@,
                metadata.view(),
                e,
            )),
    {
        let mut next = self.clone_list();
        match next.remove_member(&member) {
            Err(e) => {
                return Err(e);
            },
            Ok(()) => {},
        }
        match next.add_member(member, metadata) {
            Err(e) => {
                return Err(e);
            },
            Ok(()) => {},
        }
        *self = next;
        Ok(())
    }
}

pub proof fn lemma_remove_keeps_links(v: Map<MemberView, MemberMetadataView>, m: MemberView)
    requires
        links_consistent(v),
        can_remove(v, m),
    ensures
        links_consistent(after_remove(v, m)),
{
    let n = after_remove(v, m);
    assert forall|x: MemberView, p: MemberView|
        n.dom().contains(x) && #[trigger] n[x].parents.contains(p) implies n.dom().contains(p)
            && n[p].children.contains(x) by {
        assert(v[x].parents.contains(p));
        if p == m {
            assert(v[m].children.contains(x));
        }
        assert(v[p].children.contains(x));
    }
    assert forall|p: MemberView, x: MemberView|
        n.dom().contains(p) && #[trigger] n[p].children.contains(x) implies n.dom().contains(x)
            && n[x].parents.contains(p) by {
        assert(v[p].children.contains(x));
        if x == m {
            assert(v[m].parents.contains(p));
        }
        assert(v[x].parents.contains(p));
    }
}

pub proof fn lemma_add_keeps_links(v: Map<MemberView, MemberMetadataView>, m: MemberView, md: MemberMetadataView)
    requires
        links_consistent(v),
        can_add(v, m, md),
    ensures
        links_consistent(after_add(v, m, md)),
{
    let n = after_add(v, m, md);
    assert forall|x: MemberView, p: MemberView|
        n.dom().contains(x) && #[trigger] n[x].parents.contains(p) implies n.dom().contains(p)
            && n[p].children.contains(x) by {
        if x == m {
            if md.parents.contains(p) {
                if p != m {
                    assert(v.dom().contains(p));
                }
            } else {
                assert(md.children.contains(x));
            }
        } else {
            if v[x].parents.contains(p) {
                assert(v.dom().contains(p));
                assert(v[p].children.contains(x));
                assert(p != m);
            } else {
                assert(p == m && md.children.contains(x));
            }
        }
    }
    assert forall|p: MemberView, x: MemberView|
        n.dom().contains(p) && #[trigger] n[p].children.contains(x) implies n.dom().contains(x)
            && n[x].parents.contains(p) by {
        if p == m {
            if md.children.contains(x) {
                if x != m {
                    assert(!child_missing(v, m, md));
                    assert(v.dom().contains(x));
                }
            } else {
                assert(md.parents.contains(p));
            }
        } else {
            if v[p].children.contains(x) {
                assert(v.dom().contains(x));
                assert(v[x].parents.contains(p));
                assert(x != m);
            } else {
                assert(x == m && md.parents.contains(p));
            }
        }
    }
}


/// Adding a member and then removing it gives back the members as they were,
/// for a member that names itself neither as a child nor as a parent.
pub proof fn law_add_then_remove_member(
    v: Map<MemberView, MemberMetadataView>,
    m: MemberView,
    md: MemberMetadataView,
)
    requires
        links_consistent(v),
        can_add(v, m, md),
        !md.children.contains(m),
        !md.parents.contains(m),
    ensures
        can_remove(after_add(v, m, md), m),
        after_remove(after_add(v, m, md), m) == v,
{
    let a = after_add(v, m, md);
    assert(a[m] =~= md);
    let r = after_remove(a, m);
    assert(r.dom() =~= v.dom());
    assert forall|k: MemberView| #[trigger] r.dom().contains(k) implies r[k] == v[k] by {
        if v[k].children.contains(m) {
            assert(v.dom().contains(m));
        }
        if v[k].parents.contains(m) {
            assert(v.dom().contains(m));
        }
        assert(r[k] =~= v[k]);
    }
    assert(r =~= v);
}

/// A member may do whatever a team it belongs to is granted.
pub proof fn law_member_inherits_team(
    v: Map<MemberView, MemberMetadataView>,
    account: Seq<char>,
    team: MemberView,
    labels: Seq<Seq<char>>,
    a: ActionType,
)
    requires
        v.dom().contains(MemberView::Account(account)),
        v.dom().contains(team),
        v[MemberView::Account(account)].parents.contains(team),
        grants(v[team], labels, a),
    ensures
        permissions_for(v, account, labels).contains(a),
{
    let path = seq![MemberView::Account(account), team];
    assert(is_parent_path(v, path));
    assert(inherits_from(v, MemberView::Account(account), team));
}

/// An account that is not a member may do nothing.
pub proof fn law_non_member_has_no_permissions(
    v: Map<MemberView, MemberMetadataView>,
    account: Seq<char>,
    labels: Seq<Seq<char>>,
)
    requires
        !v.dom().contains(MemberView::Account(account)),
    ensures
        permissions_for(v, account, labels) == Set::<ActionType>::empty(),
{
    assert forall|a: ActionType| !permissions_for(v, account, labels).contains(a) by {
        if permissions_for(v, account, labels).contains(a) {
            let m = choose|m: MemberView|
                #[trigger] inherits_from(v, MemberView::Account(account), m) && grants(v[m], labels, a);
            let path = choose|path: Seq<MemberView>|
                #[trigger] is_parent_path(v, path) && path[0] == MemberView::Account(account)
                    && path[path.len() - 1] == m;
            assert(v.dom().contains(path[0]));
        }
    }
    assert(permissions_for(v, account, labels) =~= Set::<ActionType>::empty());
}

/// An `Any` rule grants its actions whatever the labels, none included.
pub proof fn law_any_rule_grants(md: MemberMetadataView, labels: Seq<Seq<char>>, a: ActionType)
    requires
        md.permissions.dom().contains(RuleView::Any),
        md.permissions[RuleView::Any].contains(a),
    ensures
        grants(md, labels, a),
{
    assert(rule_applies_to_any(RuleView::Any, labels));
}

/// Without labels, only `Any` rules grant anything.
pub proof fn law_no_labels_only_any(md: MemberMetadataView, a: ActionType)
    requires
        !md.permissions.dom().contains(RuleView::Any),
    ensures
        !grants(md, Seq::<Seq<char>>::empty(), a),
{
}

/// Writing a member as text and reading it back gives the same member, for
/// teams and for accounts with valid ids: `Member::from(m.into())` is `Some(m)`.
pub proof fn law_member_text_round_trip(m: MemberView)
    requires
        m matches MemberView::Account(s) ==> valid_account_id(s),
    ensures
        member_from_seq(member_to_seq(m)) == Some(m),
{
    match m {
        MemberView::Team(s) => {
            assert((team_marker() + s).subrange(0, 5) =~= team_marker());
            assert((team_marker() + s).subrange(5, (team_marker() + s).len() as int) =~= s);
        },
        MemberView::Account(s) => {
            if seq_starts_with(s, team_marker()) {
                assert(s[4] == team_marker()[4]);
                assert(is_account_char(s[4]));
            }
        },
    }
}

/// Reading a member from text and writing it back gives the text back.
pub proof fn law_member_text_stable(s: Seq<char>)
    requires
        member_from_seq(s) is Some,
    ensures
        member_to_seq(member_from_seq(s)->0) == s,
{
    if seq_starts_with(s, team_marker()) {
        assert(team_marker() + s.subrange(5, s.len() as int) =~= s);
    }
}

pub open spec fn moderators_seq() -> Seq<char> {
    seq!['m', 'o', 'd', 'e', 'r', 'a', 't', 'o', 'r', 's']
}

/// The team whose children are the hub moderators.
pub open spec fn moderators_team() -> MemberView {
    MemberView::Team(moderators_seq())
}

fn moderators_string() -> (r: String)
    ensures
        r@ == moderators_seq(),
{
    let s = String::from_str("moderators");
    proof {
        reveal_strlit("moderators");
    }
    assert(s@ =~= moderators_seq());
    s
}

} // verus!
