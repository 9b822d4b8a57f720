//! Notifications: who is mentioned in a text, and the notification entries that
//! the contract writes to the social database index.
use crate::account::AccountId;
use crate::contract::Env;
use crate::proposal::{proposal_subscribers, Proposal};
use crate::rfp::{rfp_subscribers, RFP};
use vstd::prelude::*;

verus! {

/// Whether a character is alphanumeric in Unicode's sense, as the standard library decides it.
pub uninterp spec fn unicode_alphanumeric(c: char) -> bool;

/// An ASCII letter or digit.
pub open spec fn ascii_alphanumeric(c: char) -> bool {
    ||| 'a' as u32 <= c as u32 <= 'z' as u32
    ||| 'A' as u32 <= c as u32 <= 'Z' as u32
    ||| '0' as u32 <= c as u32 <= '9' as u32
}

/// `char::is_alphanumeric`: the character is alphabetic or numeric in Unicode's sense.
/// The contract names the result; it depends on the character alone. Among ASCII
/// characters, exactly the letters and digits are alphabetic or numeric.
#[verifier::external_body]
fn is_alphanumeric(c: char) -> (r: bool)
    ensures
        r == unicode_alphanumeric(c),
        (c as u32) < 128 ==> (r <==> ascii_alphanumeric(c)),
{
    c.is_alphanumeric()
}

/// A character that may continue a mention: alphanumeric or a dot. Among ASCII
/// characters the alphanumeric ones are the letters and digits.
pub open spec fn mention_char(c: char) -> bool {
    ||| c == '.'
    ||| (c as u32) < 128 && ascii_alphanumeric(c)
    ||| (c as u32) >= 128 && unicode_alphanumeric(c)
}

/// The state of the mention scanner after a text: the mentions found so far,
/// the mention being read, and whether one is being read.
pub open spec fn scan(text: Seq<char>) -> (Seq<Seq<char>>, Seq<char>, bool)
    decreases text.len(),
{
    if text.len() == 0 {
        (Seq::empty(), Seq::empty(), false)
    } else {
        let (ms, cur, rec) = scan(text.drop_last());
        let ch = text.last();
        let (ms1, cur1, rec1) = if rec {
            if mention_char(ch) {
                (ms, cur.push(ch), true)
            } else {
                (if cur.len() > 0 {
                    ms.push(cur)
                } else {
                    ms
                }, Seq::<char>::empty(), false)
            }
        } else {
            (ms, cur, rec)
        };
        if ch == '@' {
            (ms1, cur1, true)
        } else {
            (ms1, cur1, rec1)
        }
    }
}

/// The accounts mentioned in a text: each `@` starts a mention made of the
/// alphanumeric characters and dots that follow it; empty mentions are dropped.
pub open spec fn text_mentions(text: Seq<char>) -> Seq<Seq<char>> {
    let (ms, cur, rec) = scan(text);
    if rec && cur.len() > 0 {
        ms.push(cur)
    } else {
        ms
    }
}

pub open spec fn strings_of(v: Seq<String>) -> Seq<Seq<char>> {
    crate::access_control::rules::strings_view(v)
}

proof fn lemma_scan_without_at(text: Seq<char>)
    requires
        forall|i: int| 0 <= i < text.len() ==> text[i] != '@',
    ensures
        scan(text) == (Seq::<Seq<char>>::empty(), Seq::<char>::empty(), false),
    decreases text.len(),
{
    if text.len() > 0 {
        lemma_scan_without_at(text.drop_last());
        assert(text.last() == text[text.len() - 1]);
    }
}

/// A text without `@` mentions nobody.
pub proof fn law_no_at_no_mentions(text: Seq<char>)
    requires
        !text.contains('@'),
    ensures
        text_mentions(text).len() == 0,
{
    assert forall|i: int| 0 <= i < text.len() implies text[i] != '@' by {
        if text[i] == '@' {
            assert(text.contains('@'));
        }
    }
    lemma_scan_without_at(text);
}

/// Every mention found in a text is made of the characters that may continue a
/// mention, and is not empty.
pub proof fn law_mentions_are_words(text: Seq<char>)
    ensures
        forall|k: int| 0 <= k < text_mentions(text).len() ==> {
            &&& (#[trigger] text_mentions(text)[k]).len() > 0
            &&& forall|j: int| 0 <= j < text_mentions(text)[k].len() ==> mention_char(#[trigger] text_mentions(text)[k][j])
        },
{
    lemma_scan_words(text);
}

proof fn lemma_scan_words(text: Seq<char>)
    ensures
        forall|k: int| 0 <= k < scan(text).0.len() ==> {
            &&& (#[trigger] scan(text).0[k]).len() > 0
            &&& forall|j: int| 0 <= j < scan(text).0[k].len() ==> mention_char(#[trigger] scan(text).0[k][j])
        },
        forall|j: int| 0 <= j < scan(text).1.len() ==> mention_char(#[trigger] scan(text).1[j]),
    decreases text.len(),
{
    if text.len() > 0 {
        lemma_scan_words(text.drop_last());
        let (ms, cur, rec) = scan(text.drop_last());
        let ch = text.last();
        if rec && mention_char(ch) {
            assert forall|j: int| 0 <= j < cur.push(ch).len() implies mention_char(#[trigger] cur.push(ch)[j]) by {
                if j < cur.len() {
                    assert(cur.push(ch)[j] == cur[j]);
                }
            }
        }
        if rec && !mention_char(ch) && cur.len() > 0 {
            assert forall|k: int| 0 <= k < ms.push(cur).len() implies (#[trigger] ms.push(cur)[k]).len() > 0
                && forall|j: int| 0 <= j < ms.push(cur)[k].len() ==> mention_char(#[trigger] ms.push(cur)[k][j]) by {
                if k < ms.len() {
                    assert(ms.push(cur)[k] == ms[k]);
                }
            }
        }
    }
}

/// The mentions in a text, in order of appearance.
pub fn get_text_mentions(text: &str) -> (r: Vec<String>)
    ensures
        strings_of(r@) == text_mentions(text@),
{
    let n = text.unicode_len();
    let mut mentions: Vec<String> = Vec::new();
    let mut start: usize = 0;
    let mut recording = false;
    let mut i: usize = 0;
    while i < n
        invariant
            n == text@.len(),
            i <= n,
            start <= i,
            strings_of(mentions@) == scan(text@.subrange(0, i as int)).0,
            recording == scan(text@.subrange(0, i as int)).2,
            recording ==> scan(text@.subrange(0, i as int)).1 == text@.subrange(start as int, i as int),
            !recording ==> scan(text@.subrange(0, i as int)).1 == Seq::<char>::empty(),
        decreases n - i,
    {
        let ch = text.get_char(i);
        let ghost prefix = text@.subrange(0, i + 1);
        proof {
            assert(prefix.drop_last() =~= text@.subrange(0, i as int));
            assert(prefix.last() == ch);
        }
        let ghost before = mentions@;
        if recording {
            if is_alphanumeric(ch) || ch == '.' {
                proof {
                    assert(text@.subrange(start as int, i + 1) =~= text@.subrange(start as int, i as int).push(ch));
                    assert(mention_char(ch));
                    assert(scan(prefix).1 == scan(prefix.drop_last()).1.push(ch));
                }
            } else {
                if start < i {
                    let m = text.substring_char(start, i);
                    mentions.push(String::from_str(m));
                    proof {
                        assert(strings_of(mentions@) =~= strings_of(before).push(text@.subrange(start as int, i as int)));
                    }
                }
                recording = false;
            }
        }
        if ch == '@' {
            if !recording {
                start = i + 1;
            }
            recording = true;
        }
        proof {
            assert(text@.subrange((i + 1) as int, (i + 1) as int) =~= Seq::<char>::empty());
        }
        i += 1;
    }
    proof {
        assert(text@.subrange(0, n as int) =~= text@);
    }
    if recording && start < n {
        let ghost before = mentions@;
        let m = text.substring_char(start, n);
        mentions.push(String::from_str(m));
        proof {
            assert(strings_of(mentions@) =~= strings_of(before).push(text@.subrange(start as int, n as int)));
        }
    }
    mentions
}

/// What a notification says, as written into the social database index.
pub enum NotifyValue {
    /// `devgovgigs/mention`: the post mentions the account.
    PostMention { post: u64 },
    /// `devgovgigs/like`: the account's post was liked.
    PostLike { post: u64 },
    /// `devgovgigs/reply`: the account's post got a reply.
    PostReply { post: u64 },
    /// `devgovgigs/edit`: the account's post was edited.
    PostEdit { post: u64 },
    /// `devhub/mention`: the proposal concerns the account.
    ProposalMention { proposal: u32, notifier: AccountId },
    /// `proposal/edit`: the account's proposal was edited.
    ProposalEdit { proposal: u32, widget_account: AccountId, notifier: AccountId },
    /// `rfp/mention`: the RFP concerns the account.
    RfpMention { rfp: u32, widget_account: AccountId, notifier: AccountId },
}

/// One notification: its recipient (the index key) and what it says.
pub struct NotifyEntry {
    pub key: String,
    pub value: NotifyValue,
}

/// The notifications that one write to the social database index carries:
/// a single entry, or a list of them.
pub enum NotifyPayload {
    Single(NotifyEntry),
    List(Vec<NotifyEntry>),
}

/// A write of notifications to the social database on behalf of `notifier`,
/// with a quarter of the prepaid gas and the attached deposit.
pub struct Notification {
    pub notifier: AccountId,
    pub payload: NotifyPayload,
    pub static_gas: u64,
    pub deposit: u128,
}

/// The recipients of a list of notifications, in order.
pub open spec fn entry_keys(s: Seq<NotifyEntry>) -> Seq<Seq<char>> {
    s.map_values(|e: NotifyEntry| e.key@)
}

/// The same notification for each account, in order; nothing for no accounts.
pub fn notify_accounts(
    notifier: AccountId,
    accounts: Vec<String>,
    notify_value: &NotifyValue,
    prepaid_gas: u64,
    attached_deposit: u128,
) -> (r: Option<Notification>)
    ensures
        accounts@.len() == 0 <==> r is None,
        r matches Some(n) ==> {
            &&& n.notifier == notifier
            &&& n.static_gas == prepaid_gas / 4
            &&& n.deposit == attached_deposit
            &&& n.payload matches NotifyPayload::List(entries)
            &&& entry_keys(entries@) == strings_of(accounts@)
            &&& forall|i: int| 0 <= i < entries@.len() ==> same_value(#[trigger] entries@[i].value, *notify_value)
        },
{
    if accounts.len() == 0 {
        return None;
    }
    let mut entries: Vec<NotifyEntry> = Vec::new();
    let mut i: usize = 0;
    while i < accounts.len()
        invariant
            i <= accounts@.len(),
            entries@.len() == i,
            forall|j: int| 0 <= j < i ==> (#[trigger] entries@[j]).key@ == accounts@[j]@ && same_value(entries@[j].value, *notify_value),
        decreases accounts@.len() - i,
    {
        let key = accounts[i].clone();
        let value = copy_value(notify_value);
        entries.push(NotifyEntry { key, value });
        i += 1;
    }
    assert(entry_keys(entries@) =~= strings_of(accounts@));
    Some(Notification {
        notifier,
        payload: NotifyPayload::List(entries),
        static_gas: prepaid_gas / 4,
        deposit: attached_deposit,
    })
}

/// Two notification values that say the same thing.
pub open spec fn same_value(a: NotifyValue, b: NotifyValue) -> bool {
    match (a, b) {
        (NotifyValue::PostMention { post: x }, NotifyValue::PostMention { post: y }) => x == y,
        (NotifyValue::PostLike { post: x }, NotifyValue::PostLike { post: y }) => x == y,
        (NotifyValue::PostReply { post: x }, NotifyValue::PostReply { post: y }) => x == y,
        (NotifyValue::PostEdit { post: x }, NotifyValue::PostEdit { post: y }) => x == y,
        (
            NotifyValue::ProposalMention { proposal: x, notifier: n1 },
            NotifyValue::ProposalMention { proposal: y, notifier: n2 },
        ) => x == y && n1@ == n2@,
        (
            NotifyValue::ProposalEdit { proposal: x, widget_account: w1, notifier: n1 },
            NotifyValue::ProposalEdit { proposal: y, widget_account: w2, notifier: n2 },
        ) => x == y && w1@ == w2@ && n1@ == n2@,
        (
            NotifyValue::RfpMention { rfp: x, widget_account: w1, notifier: n1 },
            NotifyValue::RfpMention { rfp: y, widget_account: w2, notifier: n2 },
        ) => x == y && w1@ == w2@ && n1@ == n2@,
        _ => false,
    }
}

pub fn copy_value(v: &NotifyValue) -> (r: NotifyValue)
    ensures
        same_value(r, *v),
{
    match v {
        NotifyValue::PostMention { post } => NotifyValue::PostMention { post: *post },
        NotifyValue::PostLike { post } => NotifyValue::PostLike { post: *post },
        NotifyValue::PostReply { post } => NotifyValue::PostReply { post: *post },
        NotifyValue::PostEdit { post } => NotifyValue::PostEdit { post: *post },
        NotifyValue::ProposalMention { proposal, notifier } => NotifyValue::ProposalMention {
            proposal: *proposal,
            notifier: notifier.clone(),
        },
        NotifyValue::ProposalEdit { proposal, widget_account, notifier } => NotifyValue::ProposalEdit {
            proposal: *proposal,
            widget_account: widget_account.clone(),
            notifier: notifier.clone(),
        },
        NotifyValue::RfpMention { rfp, widget_account, notifier } => NotifyValue::RfpMention {
            rfp: *rfp,
            widget_account: widget_account.clone(),
            notifier: notifier.clone(),
        },
    }
}

/// A single notification for `post_author`.
pub fn notify(
    notifier: AccountId,
    post_author: AccountId,
    notify_value: NotifyValue,
    prepaid_gas: u64,
    attached_deposit: u128,
) -> (r: Notification)
    ensures
        r.notifier == notifier,
        r.static_gas == prepaid_gas / 4,
        r.deposit == attached_deposit,
        r.payload == (NotifyPayload::Single(NotifyEntry { key: post_author, value: notify_value })),
{
    Notification {
        notifier,
        payload: NotifyPayload::Single(NotifyEntry { key: post_author, value: notify_value }),
        static_gas: prepaid_gas / 4,
        deposit: attached_deposit,
    }
}

/// A notification for everyone mentioned in a post's text, written on behalf of
/// the contract; nothing when nobody is mentioned.
pub fn notify_mentions(
    text: &str,
    post_id: u64,
    current_account: AccountId,
    prepaid_gas: u64,
    attached_deposit: u128,
) -> (r: Option<Notification>)
    ensures
        text_mentions(text@).len() == 0 <==> r is None,
        r matches Some(n) ==> {
            &&& n.notifier == current_account
            &&& n.static_gas == prepaid_gas / 4
            &&& n.deposit == attached_deposit
            &&& n.payload matches NotifyPayload::List(entries)
            &&& entry_keys(entries@) == text_mentions(text@)
            &&& forall|i: int| 0 <= i < entries@.len() ==> (#[trigger] entries@[i]).value == (NotifyValue::PostMention { post: post_id })
        },
{
    let mentions = get_text_mentions(text);
    let value = NotifyValue::PostMention { post: post_id };
    let r = notify_accounts(current_account, mentions, &value, prepaid_gas, attached_deposit);
    proof {
        if r is Some {
            let entries = r->Some_0.payload->List_0;
            assert forall|i: int| 0 <= i < entries@.len() implies (#[trigger] entries@[i]).value == (NotifyValue::PostMention { post: post_id }) by {
                assert(same_value(entries@[i].value, value));
            }
        }
    }
    r
}

/// The notification of everyone a proposal concerns (those its description and
/// summary mention, its supervisor and its requested sponsor), on behalf of the
/// contract; nothing when nobody is concerned.
pub fn notify_proposal_subscribers(env: &Env, proposal: &Proposal) -> (r: Option<Notification>)
    ensures
        proposal_subscribers(proposal.snapshot.body.latest()).len() == 0 <==> r is None,
        r matches Some(n) ==> {
            &&& n.notifier == env.current
            &&& n.static_gas == env.prepaid_gas / 4
            &&& n.deposit == env.attached_deposit
            &&& n.payload matches NotifyPayload::List(entries)
            &&& entry_keys(entries@) == proposal_subscribers(proposal.snapshot.body.latest())
            &&& forall|i: int| 0 <= i < entries@.len() ==> same_value(
                #[trigger] entries@[i].value,
                NotifyValue::ProposalMention { proposal: proposal.id, notifier: env.predecessor },
            )
        },
{
    let accounts = proposal.snapshot.body.subscribers();
    let value = NotifyValue::ProposalMention { proposal: proposal.id, notifier: env.predecessor.clone() };
    notify_accounts(env.current.clone(), accounts, &value, env.prepaid_gas, env.attached_deposit)
}

/// The notification of everyone an RFP concerns (those its description and
/// summary mention) followed by `additional_accounts`, on behalf of the contract;
/// nothing when the list is empty.
pub fn notify_rfp_subscribers(env: &Env, rfp: &RFP, additional_accounts: &Vec<AccountId>) -> (r: Option<Notification>)
    ensures
        rfp_subscribers(rfp.snapshot.body.latest()).len() + additional_accounts@.len() == 0 <==> r is None,
        r matches Some(n) ==> {
            &&& n.notifier == env.current
            &&& n.static_gas == env.prepaid_gas / 4
            &&& n.deposit == env.attached_deposit
            &&& n.payload matches NotifyPayload::List(entries)
            &&& entry_keys(entries@) == rfp_subscribers(rfp.snapshot.body.latest()) + strings_of(additional_accounts@)
            &&& forall|i: int| 0 <= i < entries@.len() ==> same_value(
                #[trigger] entries@[i].value,
                NotifyValue::RfpMention { rfp: rfp.id, widget_account: env.current, notifier: env.current },
            )
        },
{
    let mut accounts = rfp.snapshot.body.subscribers();
    crate::proposal::append_strings(&mut accounts, additional_accounts);
    assert(strings_of(accounts@).len() == accounts@.len());
    assert(strings_of(additional_accounts@).len() == additional_accounts@.len());
    let value = NotifyValue::RfpMention {
        rfp: rfp.id,
        widget_account: env.current.clone(),
        notifier: env.current.clone(),
    };
    notify_accounts(env.current.clone(), accounts, &value, env.prepaid_gas, env.attached_deposit)
}

/// The notification of a proposal's author that the caller edited it.
pub fn notify_edit_proposal(env: &Env, proposal_id: u32, post_author: AccountId) -> (r: Notification)
    ensures
        r.notifier == env.current,
        r.static_gas == env.prepaid_gas / 4,
        r.deposit == env.attached_deposit,
        r.payload == (NotifyPayload::Single(
            NotifyEntry {
                key: post_author,
                value: NotifyValue::ProposalEdit {
                    proposal: proposal_id,
                    widget_account: r.payload->Single_0.value->ProposalEdit_widget_account,
                    notifier: r.payload->Single_0.value->ProposalEdit_notifier,
                },
            },
        )),
        r.payload->Single_0.value->ProposalEdit_widget_account@ == env.current@,
        r.payload->Single_0.value->ProposalEdit_notifier@ == env.predecessor@,
{
    let value = NotifyValue::ProposalEdit {
        proposal: proposal_id,
        widget_account: env.current.clone(),
        notifier: env.predecessor.clone(),
    };
    notify(env.current.clone(), post_author, value, env.prepaid_gas, env.attached_deposit)
}

pub open spec fn social_db_mainnet() -> Seq<char> {
    "social.near"@
}

pub open spec fn social_db_testnet() -> Seq<char> {
    "v1.social08.testnet"@
}

pub open spec fn testnet_suffix() -> Seq<char> {
    seq!['t', 'e', 's', 't', 'n', 'e', 't']
}

/// The social database contract: the testnet one when the contract's own account
/// ends with `testnet`, the mainnet one otherwise.
pub open spec fn social_db_account_of(current: Seq<char>) -> Seq<char> {
    if current.len() >= 7 && current.subrange(current.len() - 7, current.len() as int) == testnet_suffix() {
        social_db_testnet()
    } else {
        social_db_mainnet()
    }
}

/// The social database contract that the hub writes to.
pub fn social_db_contract(current_account: &str) -> (r: AccountId)
    ensures
        r@ == social_db_account_of(current_account@),
{
    let n = current_account.unicode_len();
    let suffix = String::from_str("testnet");
    proof {
        reveal_strlit("testnet");
        assert(suffix@ =~= testnet_suffix());
    }
    if n >= 7 {
        let tail = current_account.substring_char(n - 7, n);
        if crate::text::str_eq(tail, suffix.as_str()) {
            return String::from_str("v1.social08.testnet");
        }
    }
    String::from_str("social.near")
}

} // verus!
