//! The texts that the contract publishes on its social feed.
use crate::account::AccountId;
use crate::post::idea::VersionedIdea;
use crate::post::solution::{solution_latest, VersionedSolution};
use crate::post::sponsorship::VersionedSponsorship;
use crate::post::{body_description, body_is_current, Post, PostBody};
use crate::proposal::Proposal;
use crate::rfp::RFP;
use crate::text::{decimal, occurs_at, seq_ends_with, u64_to_decimal};
use crate::web4::{json_object_string, json_object_text};
use vstd::prelude::*;

verus! {

/// The heading of a reposted post: its kind and name, none for comments.
pub open spec fn post_title(b: PostBody) -> Seq<char> {
    match b {
        PostBody::Idea(VersionedIdea::V1(i)) => "## Idea: "@ + i.name@ + "\n"@,
        PostBody::Solution(s) => "## Solution: "@ + solution_latest(s).name@ + "\n"@,
        PostBody::Sponsorship(VersionedSponsorship::V1(s)) => "## Sponsorship: "@ + s.name@ + "\n"@,
        _ => Seq::empty(),
    }
}

/// The markdown with which a new top-level post is announced.
pub open spec fn post_repost_text_of(author: Seq<char>, id: u64, b: PostBody) -> Seq<char> {
    "@"@ + author + " [Posted on Developer DAO Board](https://near.social/#/devgovgigs.near/widget/Post?id="@
        + decimal(id as nat) + ")\n"@ + post_title(b) + body_description(b)
}

/// The announcement of a new top-level post.
pub fn post_repost_text(post: &Post) -> (r: String)
    requires
        body_is_current(post.snapshot.body),
    ensures
        r@ == post_repost_text_of(post.author_id@, post.id, post.snapshot.body),
{
    let mut text = String::from_str("@");
    text.append(post.author_id.as_str());
    text.append(" [Posted on Developer DAO Board](https://near.social/#/devgovgigs.near/widget/Post?id=");
    let id = u64_to_decimal(post.id);
    text.append(id.as_str());
    text.append(")\n");
    let ghost head = text@;
    match &post.snapshot.body {
        PostBody::Idea(VersionedIdea::V1(i)) => {
            text.append("## Idea: ");
            text.append(i.name.as_str());
            text.append("\n");
        },
        PostBody::Solution(s) => {
            let name = post.snapshot.body.name();
            text.append("## Solution: ");
            text.append(name.as_str());
            text.append("\n");
        },
        PostBody::Sponsorship(VersionedSponsorship::V1(s)) => {
            text.append("## Sponsorship: ");
            text.append(s.name.as_str());
            text.append("\n");
        },
        _ => {},
    }
    assert(text@ =~= head + post_title(post.snapshot.body));
    let desc = post.snapshot.body.description();
    text.append(desc.as_str());
    assert(text@ =~= post_repost_text_of(post.author_id@, post.id, post.snapshot.body));
    text
}

/// The markdown with which a new proposal is announced.
pub open spec fn proposal_repost_text_of(
    author: Seq<char>,
    id: u32,
    category: Seq<char>,
    title: Seq<char>,
    summary: Seq<char>,
) -> Seq<char> {
    "We have just received a new *"@ + category + "* proposal.\n\n———\n\n**By**: @"@ + author
        + "\n\n**Title**: “"@ + title + "“\n\n**Summary**:\n\n"@ + summary
        + "\n\n———\n\nRead the full proposal and share your feedback on [DevHub]("@
        + "/devhub.near/widget/app?page=proposal&id="@ + decimal(id as nat) + ")"@
}

/// The part of an announcement that names a proposal or an RFP: its title right
/// after `**Title**: “`, and its summary right after `**Summary**:` and a blank line.
pub open spec fn title_and_summary(title: Seq<char>, summary: Seq<char>) -> Seq<char> {
    "**Title**: “"@ + title + "“\n\n**Summary**:\n\n"@ + summary
}

/// The announcement of a new proposal gives its name as the title and its
/// summary as the summary, and ends with a link to the app's page for that proposal.
pub proof fn law_proposal_announcement(author: Seq<char>, id: u32, category: Seq<char>, title: Seq<char>, summary: Seq<char>)
    ensures
        exists|i: int| occurs_at(proposal_repost_text_of(author, id, category, title, summary), title_and_summary(title, summary), i),
        seq_ends_with(
            proposal_repost_text_of(author, id, category, title, summary),
            "/devhub.near/widget/app?page=proposal&id="@ + decimal(id as nat) + ")"@,
        ),
{
    reveal_strlit("\n\n**Title**: “");
    reveal_strlit("\n\n");
    reveal_strlit("**Title**: “");
    assert("\n\n**Title**: “"@ =~= "\n\n"@ + "**Title**: “"@);
    let t = proposal_repost_text_of(author, id, category, title, summary);
    let pre = "We have just received a new *"@ + category + "* proposal.\n\n———\n\n**By**: @"@ + author + "\n\n"@;
    let b = title_and_summary(title, summary);
    let rest = "\n\n———\n\nRead the full proposal and share your feedback on [DevHub]("@
        + "/devhub.near/widget/app?page=proposal&id="@ + decimal(id as nat) + ")"@;
    assert(t =~= pre + b + rest);
    assert((pre + b + rest).subrange(pre.len() as int, (pre.len() + b.len()) as int) =~= b);
    assert(occurs_at(t, b, pre.len() as int));
    let tail = "/devhub.near/widget/app?page=proposal&id="@ + decimal(id as nat) + ")"@;
    let head = "We have just received a new *"@ + category + "* proposal.\n\n———\n\n**By**: @"@ + author
        + "\n\n**Title**: “"@ + title + "“\n\n**Summary**:\n\n"@ + summary
        + "\n\n———\n\nRead the full proposal and share your feedback on [DevHub]("@;
    assert(t =~= head + tail);
    assert((head + tail).subrange(head.len() as int, (head + tail).len() as int) =~= tail);
}

/// The announcement of a new proposal.
pub fn proposal_repost_text(proposal: &Proposal) -> (r: String)
    ensures
        r@ == proposal_repost_text_of(
            proposal.author_id@,
            proposal.id,
            proposal.snapshot.body.latest().category@,
            proposal.snapshot.body.latest().name@,
            proposal.snapshot.body.latest().summary@,
        ),
        exists|i: int| occurs_at(
            r@,
            title_and_summary(proposal.snapshot.body.latest().name@, proposal.snapshot.body.latest().summary@),
            i,
        ),
        seq_ends_with(r@, "/devhub.near/widget/app?page=proposal&id="@ + decimal(proposal.id as nat) + ")"@),
{
    proof {
        let b = proposal.snapshot.body.latest();
        law_proposal_announcement(proposal.author_id@, proposal.id, b.category@, b.name@, b.summary@);
    }
    let body = &proposal.snapshot.body;
    let mut text = String::from_str("We have just received a new *");
    text.append(body.category().as_str());
    text.append("* proposal.\n\n———\n\n**By**: @");
    text.append(proposal.author_id.as_str());
    text.append("\n\n**Title**: “");
    text.append(body.name().as_str());
    text.append("“\n\n**Summary**:\n\n");
    text.append(body.summary().as_str());
    text.append("\n\n———\n\nRead the full proposal and share your feedback on [DevHub](");
    text.append("/devhub.near/widget/app?page=proposal&id=");
    let id = u64_to_decimal(proposal.id as u64);
    text.append(id.as_str());
    text.append(")");
    text
}

/// The markdown with which a new RFP is announced.
pub open spec fn rfp_repost_text_of(id: u32, title: Seq<char>, summary: Seq<char>) -> Seq<char> {
    "Infrastructure Committee published a new Request for Proposals.\n\n———\n\n**Title**: “"@ + title
        + "“\n\n**Summary**:\n\n"@ + summary
        + "\n\n———\n\nRead the full RFP and participate on [Infrastructure Committee page]("@
        + "/devhub.near/widget/app?page=rfp&id="@ + decimal(id as nat) + ")"@
}

/// The announcement of a new RFP gives its name as the title and its summary as
/// the summary, and ends with a link to the app's RFP page for that RFP.
pub proof fn law_rfp_announcement(id: u32, title: Seq<char>, summary: Seq<char>)
    ensures
        exists|i: int| occurs_at(rfp_repost_text_of(id, title, summary), title_and_summary(title, summary), i),
        seq_ends_with(rfp_repost_text_of(id, title, summary), "/devhub.near/widget/app?page=rfp&id="@ + decimal(id as nat) + ")"@),
{
    let first = "Infrastructure Committee published a new Request for Proposals.\n\n———\n\n**Title**: “";
    let lead = "Infrastructure Committee published a new Request for Proposals.\n\n———\n\n";
    reveal_strlit("Infrastructure Committee published a new Request for Proposals.\n\n———\n\n**Title**: “");
    reveal_strlit("Infrastructure Committee published a new Request for Proposals.\n\n———\n\n");
    reveal_strlit("**Title**: “");
    assert(first@ =~= lead@ + "**Title**: “"@);
    let t = rfp_repost_text_of(id, title, summary);
    let b = title_and_summary(title, summary);
    let rest = "\n\n———\n\nRead the full RFP and participate on [Infrastructure Committee page]("@
        + "/devhub.near/widget/app?page=rfp&id="@ + decimal(id as nat) + ")"@;
    assert(t =~= lead@ + b + rest);
    assert((lead@ + b + rest).subrange(lead@.len() as int, (lead@.len() + b.len()) as int) =~= b);
    assert(occurs_at(t, b, lead@.len() as int));
    let tail = "/devhub.near/widget/app?page=rfp&id="@ + decimal(id as nat) + ")"@;
    let head = first@ + title + "“\n\n**Summary**:\n\n"@ + summary
        + "\n\n———\n\nRead the full RFP and participate on [Infrastructure Committee page]("@;
    assert(t =~= head + tail);
    assert((head + tail).subrange(head.len() as int, (head + tail).len() as int) =~= tail);
}

/// The announcement of a new RFP.
pub fn rfp_repost_text(rfp: &RFP) -> (r: String)
    ensures
        r@ == rfp_repost_text_of(rfp.id, rfp.snapshot.body.latest().name@, rfp.snapshot.body.latest().summary@),
        exists|i: int| occurs_at(
            r@,
            title_and_summary(rfp.snapshot.body.latest().name@, rfp.snapshot.body.latest().summary@),
            i,
        ),
        seq_ends_with(r@, "/devhub.near/widget/app?page=rfp&id="@ + decimal(rfp.id as nat) + ")"@),
{
    proof {
        law_rfp_announcement(rfp.id, rfp.snapshot.body.latest().name@, rfp.snapshot.body.latest().summary@);
    }
    let body = &rfp.snapshot.body;
    let mut text = String::from_str(
        "Infrastructure Committee published a new Request for Proposals.\n\n———\n\n**Title**: “",
    );
    text.append(body.name().as_str());
    text.append("“\n\n**Summary**:\n\n");
    text.append(body.summary().as_str());
    text.append("\n\n———\n\nRead the full RFP and participate on [Infrastructure Committee page](");
    text.append("/devhub.near/widget/app?page=rfp&id=");
    let id = u64_to_decimal(rfp.id as u64);
    text.append(id.as_str());
    text.append(")");
    text
}

/// The members of the `main` entry of a feed post: a markdown text.
pub open spec fn feed_main_members(text: Seq<char>) -> Seq<(Seq<char>, Seq<char>)> {
    seq![("type"@, "md"@), ("text"@, text)]
}

/// The `main` entry of a feed post: the JSON object `{"type":"md","text":..}`.
pub fn feed_post_main(text: &str) -> (r: String)
    ensures
        r@ == json_object_text(feed_main_members(text@)),
{
    let mut members: Vec<(String, String)> = Vec::new();
    members.push((String::from_str("type"), String::from_str("md")));
    members.push((String::from_str("text"), String::from_str(text)));
    proof {
        assert(crate::web4::members_view(members@) =~= feed_main_members(text@));
    }
    json_object_string(&members)
}

/// The index entry of a feed post, which marks its `main` entry as markdown.
pub fn feed_post_index() -> (r: String)
    ensures
        r@ == "{\"key\":\"main\",\"value\":{\"type\":\"md\"}}"@,
{
    String::from_str("{\"key\":\"main\",\"value\":{\"type\":\"md\"}}")
}

/// A markdown post on the contract's social feed: a write to the social
/// database `social_db`, under the contract's account, with the given gas and deposit.
pub struct FeedPost {
    pub social_db: AccountId,
    pub contract: AccountId,
    pub text: String,
    pub static_gas: u64,
    pub deposit: u128,
}

} // verus!
