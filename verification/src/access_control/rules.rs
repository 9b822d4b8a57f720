//! Restriction rules on labels.
use crate::assoc::{AssocMap, ViewKey};
use crate::text::{seq_starts_with, starts_with};
use vstd::prelude::*;

verus! {

/// A rule that matches labels. Rules are written as strings: `*` is `Any`,
/// `starts-with:<prefix>` is `StartsWith`, anything else is `ExactMatch`.
#[derive(Debug, PartialEq, Eq, PartialOrd, Ord, Hash)]
pub enum Rule {
    ExactMatch(String),
    StartsWith(String),
    Any(),
}

/// Mathematical form of a [`Rule`].
pub enum RuleView {
    ExactMatch(Seq<char>),
    StartsWith(Seq<char>),
    Any,
}

impl View for Rule {
    type V = RuleView;

    open spec fn view(&self) -> RuleView {
        match self {
            Rule::ExactMatch(s) => RuleView::ExactMatch(s@),
            Rule::StartsWith(s) => RuleView::StartsWith(s@),
            Rule::Any() => RuleView::Any,
        }
    }
}

impl Clone for Rule {
    fn clone(&self) -> (r: Self)
        ensures
            r@ == self@,
    {
        match self {
            Rule::ExactMatch(s) => Rule::ExactMatch(s.clone()),
            Rule::StartsWith(s) => Rule::StartsWith(s.clone()),
            Rule::Any() => Rule::Any(),
        }
    }
}

impl ViewKey for Rule {
    fn same_key(&self, other: &Self) -> (r: bool) {
        match (self, other) {
            (Rule::ExactMatch(a), Rule::ExactMatch(b)) => *a == *b,
            (Rule::StartsWith(a), Rule::StartsWith(b)) => *a == *b,
            (Rule::Any(), Rule::Any()) => true,
            _ => false,
        }
    }

    fn copy_key(&self) -> (r: Self) {
        self.clone()
    }
}

/// The string prefix that marks a `StartsWith` rule.
pub open spec fn starts_with_marker() -> Seq<char> {
    seq!['s', 't', 'a', 'r', 't', 's', '-', 'w', 'i', 't', 'h', ':']
}

/// The string form of the `Any` rule.
pub open spec fn any_marker() -> Seq<char> {
    seq!['*']
}

/// The rule that a string denotes.
pub open spec fn rule_from_seq(s: Seq<char>) -> RuleView {
    if s == any_marker() {
        RuleView::Any
    } else if seq_starts_with(s, starts_with_marker()) {
        RuleView::StartsWith(s.subrange(starts_with_marker().len() as int, s.len() as int))
    } else {
        RuleView::ExactMatch(s)
    }
}

/// The string that denotes a rule.
pub open spec fn rule_to_seq(r: RuleView) -> Seq<char> {
    match r {
        RuleView::ExactMatch(s) => s,
        RuleView::StartsWith(s) => starts_with_marker() + s,
        RuleView::Any => any_marker(),
    }
}

/// Whether a rule applies to a label.
pub open spec fn rule_applies(r: RuleView, label: Seq<char>) -> bool {
    match r {
        RuleView::ExactMatch(s) => label == s,
        RuleView::StartsWith(s) => seq_starts_with(label, s),
        RuleView::Any => true,
    }
}

/// Whether a rule applies to any of the labels; the `Any` rule applies even to none.
pub open spec fn rule_applies_to_any(r: RuleView, labels: Seq<Seq<char>>) -> bool {
    match r {
        RuleView::Any => true,
        _ => exists|i: int| 0 <= i < labels.len() && rule_applies(r, #[trigger] labels[i]),
    }
}

/// Views of a sequence of strings.
pub open spec fn strings_view(s: Seq<String>) -> Seq<Seq<char>> {
    s.map_values(|x: String| x@)
}

fn starts_with_marker_string() -> (r: String)
    ensures
        r@ == starts_with_marker(),
{
    let mut s = String::new();
    s.append("starts-with:");
    proof {
        reveal_strlit("starts-with:");
    }
    assert(s@ =~= starts_with_marker());
    s
}

impl Rule {
    /// Check if this rule applies to a label.
    pub fn applies(&self, label: &str) -> (r: bool)
        ensures
            r == rule_applies(self@, label@),
    {
        match self {
            Rule::ExactMatch(rule) => crate::text::str_eq(label, rule.as_str()),
            Rule::StartsWith(rule) => starts_with(label, rule.as_str()),
            Rule::Any() => true,
        }
    }

    /// Check if this rule applies to any of the labels.
    pub fn applies_to_any(&self, labels: &[String]) -> (r: bool)
        ensures
            r == rule_applies_to_any(self@, strings_view(labels@)),
    {
        if let Rule::Any() = self {
            return true;
        }
        let mut i: usize = 0;
        while i < labels.len()
            invariant
                i <= labels@.len(),
                self@ != RuleView::Any,
                forall|j: int| 0 <= j < i ==> !rule_applies(self@, #[trigger] labels@[j]@),
            decreases labels@.len() - i,
        {
            if self.applies(labels[i].as_str()) {
                assert(strings_view(labels@)[i as int] == labels@[i as int]@);
                return true;
            }
            i += 1;
        }
        proof {
            assert forall|j: int|
                0 <= j < strings_view(labels@).len() implies !rule_applies(
                self@,
                #[trigger] strings_view(labels@)[j],
            ) by {
                assert(strings_view(labels@)[j] == labels@[j]@);
            }
        }
        false
    }

    /// The rule that a string denotes.
    pub fn from(full_str: String) -> (r: Rule)
        ensures
            r@ == rule_from_seq(full_str@),
    {
        proof {
            reveal_strlit("*");
            assert("*"@ =~= any_marker());
        }
        let marker = starts_with_marker_string();
        if crate::text::str_eq(full_str.as_str(), "*") {
            Rule::Any()
        } else if starts_with(full_str.as_str(), marker.as_str()) {
            let n = full_str.as_str().unicode_len();
            let rest = full_str.as_str().substring_char(12, n);
            Rule::StartsWith(String::from_str(rest))
        } else {
            Rule::ExactMatch(full_str)
        }
    }

    /// The string that denotes this rule.
    pub fn into(self) -> (r: String)
        ensures
            r@ == rule_to_seq(self@),
    {
        match self {
            Rule::ExactMatch(s) => s,
            Rule::StartsWith(s) => {
                let marker = starts_with_marker_string();
                marker.concat(s.as_str())
            },
            Rule::Any() => {
                proof {
                    reveal_strlit("*");
                }
                let r = String::from_str("*");
                assert(r@ =~= any_marker());
                r
            },
        }
    }
}

pub struct RuleMetadata {
    pub description: String,
}

pub enum VersionedRuleMetadata {
    V0(RuleMetadata),
}

impl From<RuleMetadata> for VersionedRuleMetadata {
    fn from(rm: RuleMetadata) -> (r: Self)
        ensures
            r == VersionedRuleMetadata::V0(rm),
    {
        VersionedRuleMetadata::V0(rm)
    }
}

impl vstd::std_specs::convert::FromSpecImpl<RuleMetadata> for VersionedRuleMetadata {
    open spec fn obeys_from_spec() -> bool {
        true
    }

    open spec fn from_spec(v: RuleMetadata) -> Self {
        VersionedRuleMetadata::V0(v)
    }
}

/// Restricted rules with their metadata.
pub struct RulesList {
    pub rules: AssocMap<Rule, VersionedRuleMetadata>,
}

/// Some rule of `rules` other than `Any` applies to the label.
pub open spec fn restricted_by(rules: Map<RuleView, VersionedRuleMetadata>, l: Seq<char>) -> bool {
    exists|r: RuleView| rules.dom().contains(r) && r != RuleView::Any && rule_applies(r, l)
}

/// Labels of `labels` that some rule other than `Any` applies to.
pub open spec fn restricted_labels(
    rules: Map<RuleView, VersionedRuleMetadata>,
    labels: Seq<Seq<char>>,
) -> Set<Seq<char>> {
    Set::new(|l: Seq<char>| labels.contains(l) && restricted_by(rules, l))
}

/// Some entry of `all` at position `from` or later has key `k`.
pub open spec fn in_tail(all: Seq<(Rule, VersionedRuleMetadata)>, from: int, k: RuleView) -> bool {
    exists|m: int| from <= m < all.len() && all[m].0@ == k
}

impl RulesList {
    pub open spec fn wf(&self) -> bool {
        self.rules.wf()
    }

    pub open spec fn view(&self) -> Map<RuleView, VersionedRuleMetadata> {
        self.rules.map()
    }

    pub fn new() -> (r: Self)
        ensures
            r.wf(),
            r.view() == Map::<RuleView, VersionedRuleMetadata>::empty(),
    {
        RulesList { rules: AssocMap::new() }
    }

    /// Is this a restricted label.
    pub fn is_restricted(&self, label: &str) -> (r: bool)
        requires
            self.wf(),
        ensures
            r == exists|rule: RuleView|
                self.view().dom().contains(rule) && rule_applies(rule, label@),
    {
        let mut i: usize = 0;
        while i < self.rules.entries.len()
            invariant
                self.wf(),
                i <= self.rules.entries@.len(),
                forall|j: int|
                    0 <= j < i ==> !rule_applies(#[trigger] self.rules.entries@[j].0@, label@),
            decreases self.rules.entries@.len() - i,
        {
            if self.rules.entries[i].0.applies(label) {
                proof {
                    self.rules.lemma_lookup(i as int);
                }
                return true;
            }
            i += 1;
        }
        proof {
            assert forall|rule: RuleView|
                self.view().dom().contains(rule) implies !rule_applies(rule, label@) by {
                let j = self.rules.index_of(rule);
                assert(self.rules.entries@[j].0@ == rule);
            }
        }
        false
    }

    /// Get restricted labels out of this list, each once.
    pub fn find_restricted(&self, labels: &[String]) -> (r: Vec<String>)
        requires
            self.wf(),
        ensures
            strings_view(r@).to_set() == restricted_labels(self.view(), strings_view(labels@)),
            strings_view(r@).no_duplicates(),
    {
        let ghost lv = strings_view(labels@);
        let mut out: Vec<String> = Vec::new();
        let mut i: usize = 0;
        while i < labels.len()
            invariant
                self.wf(),
                i <= labels@.len(),
                lv == strings_view(labels@),
                strings_view(out@).no_duplicates(),
                strings_view(out@).to_set() == restricted_labels(self.view(), lv.subrange(0, i as int)),
            decreases labels@.len() - i,
        {
            let label = &labels[i];
            let ghost out_start = strings_view(out@);
            let mut hit = false;
            let mut j: usize = 0;
            while j < self.rules.entries.len()
                invariant
                    self.wf(),
                    out_start.to_set() == restricted_labels(self.view(), lv.subrange(0, i as int)),
                    out_start == strings_view(out@),
                    i < labels@.len(),
                    lv == strings_view(labels@),
                    label == &labels@[i as int],
                    j <= self.rules.entries@.len(),
                    hit ==> restricted_by(self.view(), label@),
                    !hit ==> forall|k: int|
                        0 <= k < j ==> (#[trigger] self.rules.entries@[k].0@ == RuleView::Any
                            || !rule_applies(self.rules.entries@[k].0@, label@)),
                decreases self.rules.entries@.len() - j,
            {
                let is_any = match &self.rules.entries[j].0 {
                    Rule::Any() => true,
                    _ => false,
                };
                if !is_any && !hit && self.rules.entries[j].0.applies(label.as_str()) {
                    proof {
                        self.rules.lemma_lookup(j as int);
                    }
                    hit = true;
                }
                j += 1;
            }
            proof {
                if !hit {
                    assert forall|r: RuleView|
                        self.view().dom().contains(r) && r != RuleView::Any implies !rule_applies(
                        r,
                        label@,
                    ) by {
                        let k = self.rules.index_of(r);
                        assert(self.rules.entries@[k].0@ == r);
                    }
                }
            }
            let mut dup = false;
            let mut k: usize = 0;
            while k < out.len()
                invariant
                    self.wf(),
                    hit == restricted_by(self.view(), label@),
                    out_start.to_set() == restricted_labels(self.view(), lv.subrange(0, i as int)),
                    out_start == strings_view(out@),
                    i < labels@.len(),
                    lv == strings_view(labels@),
                    label == &labels@[i as int],
                    k <= out@.len(),
                    dup ==> strings_view(out@).contains(label@),
                    !dup ==> forall|m: int| 0 <= m < k ==> out@[m]@ != label@,
                decreases out@.len() - k,
            {
                if out[k] == *label {
                    assert(strings_view(out@)[k as int] == label@);
                    dup = true;
                }
                k += 1;
            }
            let ghost old_out = strings_view(out@);
            if hit && !dup {
                out.push(label.clone());
                proof {
                    assert(strings_view(out@) =~= old_out.push(label@));
                    assert forall|m: int| 0 <= m < old_out.len() implies old_out[m] != label@ by {
                        assert(old_out[m] == out@[m]@);
                    }
                }
            }
            proof {
                let sub_i = lv.subrange(0, i as int);
                let sub_n = lv.subrange(0, i + 1);
                assert(old_out == out_start);
                assert(sub_n =~= sub_i.push(label@));
                assert(lv[i as int] == label@);
                assert(hit == restricted_by(self.view(), label@));
                assert(dup == old_out.contains(label@)) by {
                    if !dup && old_out.contains(label@) {
                        let m = choose|m: int| 0 <= m < old_out.len() && old_out[m] == label@;
                        assert(old_out[m] == out@[m]@);
                    }
                }
                assert forall|l: Seq<char>|
                    #[trigger] strings_view(out@).to_set().contains(l) == restricted_labels(
                        self.view(),
                        sub_n,
                    ).contains(l) by {
                    assert(out_start.to_set().contains(l) == restricted_labels(
                        self.view(),
                        sub_i,
                    ).contains(l));
                    if hit && !dup {
                        assert(strings_view(out@) == old_out.push(label@));
                        if strings_view(out@).contains(l) && l != label@ {
                            let m = choose|m: int|
                                0 <= m < strings_view(out@).len() && strings_view(out@)[m] == l;
                            assert(old_out[m] == l);
                        }
                        if old_out.contains(l) {
                            let m = choose|m: int| 0 <= m < old_out.len() && old_out[m] == l;
                            assert(strings_view(out@)[m] == l);
                        }
                        if l == label@ {
                            assert(strings_view(out@)[old_out.len() as int] == l);
                        }
                    } else {
                        assert(strings_view(out@) == old_out);
                    }
                    if sub_n.contains(l) && l != label@ {
                        let m = choose|m: int| 0 <= m < sub_n.len() && sub_n[m] == l;
                        assert(sub_i[m] == l);
                    }
                    if sub_i.contains(l) {
                        let m = choose|m: int| 0 <= m < sub_i.len() && sub_i[m] == l;
                        assert(sub_n[m] == l);
                    }
                    if l == label@ {
                        assert(sub_n[i as int] == l);
                    }
                }
                assert(strings_view(out@).to_set() =~= restricted_labels(self.view(), sub_n));
            }
            i += 1;
        }
        proof {
            assert(lv.subrange(0, labels@.len() as int) =~= lv);
            assert(strings_view(out@).to_set() == restricted_labels(self.view(), lv));
        }
        out
    }

    /// Set rules as restricted. Can be also used to override metadata on existing rules.
    pub fn set_restricted(&mut self, rules: Self)
        requires
            old(self).wf(),
            rules.wf(),
        ensures
            final(self).wf(),
            final(self).view() == old(self).view().union_prefer_right(rules.view()),
    {
        let ghost incoming = rules.view();
        let ghost start = self.view();
        let mut entries = rules.rules.entries;
        let ghost all = entries@;
        let ghost src = AssocMap { entries: entries };
        // Insert from the back so entries can be moved out with `pop`.
        while entries.len() > 0
            invariant
                self.wf(),
                entries@.len() <= all.len(),
                entries@ == all.subrange(0, entries@.len() as int),
                src.entries@ == all,
                src.wf(),
                incoming == src.map(),
                forall|k: RuleView| #[trigger]
                    self.view().dom().contains(k) <==> (start.dom().contains(k) || in_tail(
                        all,
                        entries@.len() as int,
                        k,
                    )),
                forall|k: RuleView| #[trigger]
                    self.view().dom().contains(k) ==> self.view()[k] == (if in_tail(
                        all,
                        entries@.len() as int,
                        k,
                    ) {
                        incoming[k]
                    } else {
                        start[k]
                    }),
            decreases entries@.len(),
        {
            let (rule, metadata) = entries.pop().unwrap();
            let ghost idx = entries@.len() as int;
            proof {
                src.lemma_lookup(idx);
            }
            let ghost prev = self.view();
            let ghost tail_prev = entries@.len() + 1;
            assert(rule@ == all[idx].0@ && metadata == all[idx].1);
            self.rules.insert(rule, metadata);
            proof {
                let ki = all[idx].0@;
                assert(self.view() == prev.insert(ki, all[idx].1));
                assert forall|k: RuleView|
                    #[trigger] in_tail(all, idx, k) == (k == ki || in_tail(all, idx + 1, k)) by {
                    if in_tail(all, idx, k) {
                        let m = choose|m: int| idx <= m < all.len() && all[m].0@ == k;
                        if m != idx {
                            assert(idx + 1 <= m < all.len() && all[m].0@ == k);
                        }
                    }
                    if in_tail(all, idx + 1, k) {
                        let m = choose|m: int| idx + 1 <= m < all.len() && all[m].0@ == k;
                        assert(idx <= m < all.len() && all[m].0@ == k);
                    }
                    if k == ki {
                        assert(idx <= idx < all.len() && all[idx].0@ == k);
                    }
                }
                assert forall|k: RuleView|
                    #[trigger] self.view().dom().contains(k) == (start.dom().contains(k) || in_tail(
                        all,
                        idx,
                        k,
                    )) by {
                    assert(prev.dom().contains(k) == (start.dom().contains(k) || in_tail(
                        all,
                        idx + 1,
                        k,
                    )));
                    assert(in_tail(all, idx, k) == (k == ki || in_tail(all, idx + 1, k)));
                }
                assert forall|k: RuleView| #[trigger]
                    self.view().dom().contains(k) implies self.view()[k] == (if in_tail(
                        all,
                        idx,
                        k,
                    ) {
                        incoming[k]
                    } else {
                        start[k]
                    }) by {
                    assert(in_tail(all, idx, k) == (k == ki || in_tail(all, idx + 1, k)));
                    if k != ki {
                        assert(prev.dom().contains(k));
                        assert(prev[k] == (if in_tail(all, idx + 1, k) {
                            incoming[k]
                        } else {
                            start[k]
                        }));
                    }
                }
            }
        }
        proof {
            assert forall|k: RuleView| #[trigger] in_tail(all, 0, k) == incoming.dom().contains(k) by {
                if incoming.dom().contains(k) {
                    let m = src.index_of(k);
                    assert(0 <= m < all.len() && all[m].0@ == k);
                }
                if in_tail(all, 0, k) {
                    let m = choose|m: int| 0 <= m < all.len() && all[m].0@ == k;
                    src.lemma_lookup(m);
                }
            }
            assert(self.view() =~= start.union_prefer_right(incoming));
        }
    }

    /// Unset rules as restricted.
    pub fn unset_restricted(&mut self, rules: Vec<Rule>)
        requires
            old(self).wf(),
        ensures
            final(self).wf(),
            final(self).view() == old(self).view().remove_keys(
                Set::new(|k: RuleView| rules@.map_values(|r: Rule| r@).contains(k)),
            ),
    {
        let ghost start = self.view();
        let ghost keys = rules@.map_values(|r: Rule| r@);
        let mut i: usize = 0;
        while i < rules.len()
            invariant
                self.wf(),
                i <= rules@.len(),
                keys == rules@.map_values(|r: Rule| r@),
                self.view() == start.remove_keys(
                    Set::new(|k: RuleView| keys.subrange(0, i as int).contains(k)),
                ),
            decreases rules@.len() - i,
        {
            self.rules.remove(&rules[i]);
            proof {
                let a = keys.subrange(0, i as int);
                let b = keys.subrange(0, i + 1);
                assert(b =~= a.push(keys[i as int]));
                assert(keys[i as int] == rules@[i as int]@);
                assert forall|k: RuleView| b.contains(k) <==> (a.contains(k) || k == keys[i as int]) by {
                    if b.contains(k) && k != keys[i as int] {
                        let m = choose|m: int| 0 <= m < b.len() && b[m] == k;
                        assert(a[m] == k);
                    }
                    if a.contains(k) {
                        let m = choose|m: int| 0 <= m < a.len() && a[m] == k;
                        assert(b[m] == k);
                    }
                    if k == keys[i as int] {
                        assert(b[i as int] == k);
                    }
                }
                assert(self.view() =~= start.remove_keys(Set::new(|k: RuleView| b.contains(k))));
            }
            i += 1;
        }
        proof {
            assert(keys.subrange(0, rules@.len() as int) =~= keys);
        }
    }
}

/// Writing a rule as text and reading it back gives the same rule, except for an
/// exact-match rule whose text reads as another rule (`*`, or one that starts
/// with `starts-with:`).
pub proof fn law_rule_text_round_trip(r: RuleView)
    requires
        r matches RuleView::ExactMatch(s) ==> s != any_marker() && !seq_starts_with(s, starts_with_marker()),
    ensures
        rule_from_seq(rule_to_seq(r)) == r,
{
    match r {
        RuleView::StartsWith(s) => {
            let t = starts_with_marker() + s;
            assert(t.subrange(0, 12) =~= starts_with_marker());
            assert(t.subrange(12, t.len() as int) =~= s);
            assert(t != any_marker()) by {
                assert(t.len() != 1);
            }
        },
        _ => {},
    }
}

/// Reading a rule from text and writing it back gives the text back.
pub proof fn law_rule_text_stable(s: Seq<char>)
    ensures
        rule_to_seq(rule_from_seq(s)) == s,
{
    if s != any_marker() && seq_starts_with(s, starts_with_marker()) {
        assert(starts_with_marker() + s.subrange(12, s.len() as int) =~= s);
    }
}

/// Lifting the restriction of rules just restricted leaves the earlier rules
/// without those.
pub proof fn law_set_then_unset_restricted(
    v: Map<RuleView, VersionedRuleMetadata>,
    rules: Map<RuleView, VersionedRuleMetadata>,
)
    ensures
        v.union_prefer_right(rules).remove_keys(rules.dom()) == v.remove_keys(rules.dom()),
{
    assert(v.union_prefer_right(rules).remove_keys(rules.dom()) =~= v.remove_keys(rules.dom()));
}

/// After rules are restricted, every label that one of them applies to is restricted.
pub proof fn law_restricted_after_set(
    v: Map<RuleView, VersionedRuleMetadata>,
    rules: Map<RuleView, VersionedRuleMetadata>,
    rule: RuleView,
    label: Seq<char>,
)
    requires
        rules.dom().contains(rule),
        rule_applies(rule, label),
    ensures
        exists|r: RuleView| v.union_prefer_right(rules).dom().contains(r) && rule_applies(r, label),
{
    assert(v.union_prefer_right(rules).dom().contains(rule));
}

} // verus!
