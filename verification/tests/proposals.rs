use devhub::contract::{Contract, ContractError, Env};
use devhub::proposal::timeline::{ReviewStatusV2, TimelineStatus};
use devhub::proposal::{ProposalBodyV1, ProposalFundingCurrency, VersionedProposal, VersionedProposalBody};
use devhub::rfp::timeline::TimelineStatus as RfpTimeline;
use devhub::rfp::{RFPBodyV0, VersionedRFP, VersionedRFPBody};

fn env(predecessor: &str) -> Env {
    Env {
        predecessor: predecessor.to_string(),
        current: "devhub.near".to_string(),
        block_timestamp: 5,
        block_height: 7,
        attached_deposit: 0,
        prepaid_gas: 300_000_000_000_000,
    }
}

fn body(timeline: TimelineStatus, linked_rfp: Option<u32>) -> VersionedProposalBody {
    VersionedProposalBody::V1(ProposalBodyV1 {
        name: "Proposal".to_string(),
        category: "Events".to_string(),
        summary: "sum".to_string(),
        description: "Hello @carol.near".to_string(),
        linked_proposals: vec![],
        requested_sponsorship_usd_amount: 100,
        requested_sponsorship_paid_in_currency: ProposalFundingCurrency::USDC,
        receiver_account: "alice.near".to_string(),
        requested_sponsor: "neardevdao.near".to_string(),
        supervisor: Some("frol.near".to_string()),
        timeline,
        linked_rfp,
    })
}

fn review(sponsor_requested_review: bool) -> ReviewStatusV2 {
    ReviewStatusV2 { sponsor_requested_review, reviewer_completed_attestation: false, kyc_verified: false }
}

fn rfp_body(timeline: RfpTimeline) -> VersionedRFPBody {
    VersionedRFPBody::V0(RFPBodyV0 {
        name: "Some RFP".to_string(),
        summary: "sum".to_string(),
        description: "some description".to_string(),
        timeline,
        submission_deadline: 1707821848175250170,
    })
}

fn linked(contract: &Contract, rfp: u32) -> Vec<u32> {
    let mut v = contract.get_linked_proposals_in_rfp(rfp);
    v.sort();
    v
}

fn timeline_of(contract: &Contract, id: u32) -> bool {
    match contract.get_proposal(id) {
        VersionedProposal::V0(p) => match &p.snapshot.body {
            VersionedProposalBody::V1(b) => matches!(b.timeline, TimelineStatus::Approved(_)),
            VersionedProposalBody::V0(b) => matches!(b.timeline, TimelineStatus::Approved(_)),
        },
    }
}

#[test]
fn test_rfp() {
    let mut contract = Contract::new();
    let admin = env("devhub.near");
    let alice = env("alice.near");

    // Only the contract itself or a moderator may publish RFPs.
    assert!(matches!(
        contract.add_rfp(&alice, rfp_body(RfpTimeline::AcceptingSubmissions), vec![]),
        Err(ContractError::NotAllowedToCreateRfps)
    ));
    assert!(matches!(
        contract.add_rfp(&admin, rfp_body(RfpTimeline::Evaluation), vec![]),
        Err(ContractError::NotAcceptingSubmissions)
    ));
    let fx = contract
        .add_rfp(&admin, rfp_body(RfpTimeline::AcceptingSubmissions), vec!["test1".to_string()])
        .ok()
        .unwrap();
    assert_eq!(fx.rfp.id, 0);
    contract.set_rfp_block_height_callback(fx.rfp, 11);
    assert_eq!(contract.get_all_rfp_ids(), vec![0]);
    assert_eq!(contract.get_rfps_by_label("test1".to_string()), vec![0]);

    // Alice proposes, then links her proposal to the RFP: it takes the RFP's labels.
    let p = contract.add_proposal(&alice, body(TimelineStatus::Draft, None), vec![]).ok().unwrap();
    contract.set_block_height_callback(p.proposal, 12);
    assert!(contract.edit_proposal(&alice, 0, body(TimelineStatus::Draft, Some(0)), vec![]).is_ok());
    assert_eq!(linked(&contract, 0), vec![0]);
    assert_eq!(contract.get_proposals_by_label("test1".to_string()), vec![0]);

    // Alice may move her draft to review, but not approve it.
    assert!(contract.edit_proposal_timeline(&alice, 0, TimelineStatus::Review(review(false))).is_ok());
    assert!(matches!(
        contract.edit_proposal_timeline(&alice, 0, TimelineStatus::Approved(review(true))),
        Err(ContractError::OnlyDraftToReview)
    ));

    // Selecting a proposal needs an approved one among the linked proposals.
    assert!(matches!(
        contract.edit_rfp(&admin, 0, rfp_body(RfpTimeline::ProposalSelected), vec!["test1".to_string()]),
        Err(ContractError::NoApprovedProposal)
    ));
    assert!(contract.edit_proposal_timeline(&admin, 0, TimelineStatus::Approved(review(true))).is_ok());
    assert!(timeline_of(&contract, 0));
    assert!(contract
        .edit_rfp(&admin, 0, rfp_body(RfpTimeline::ProposalSelected), vec!["test1".to_string()])
        .is_ok());
    match contract.get_rfp(0) {
        VersionedRFP::V0(r) => {
            assert!(matches!(r.snapshot.body, VersionedRFPBody::V0(ref b) if matches!(b.timeline, RfpTimeline::ProposalSelected)));
            assert_eq!(r.snapshot.block_height, 7);
        }
    }

    // Unlinking takes the proposal out of the RFP.
    assert!(contract.edit_proposal(&admin, 0, body(TimelineStatus::Draft, None), vec![]).is_ok());
    assert!(linked(&contract, 0).is_empty());
}

#[test]
fn proposal_edit_refusals() {
    let mut contract = Contract::new();
    let alice = env("alice.near");
    let eve = env("eve.near");
    let p = contract.add_proposal(&alice, body(TimelineStatus::Draft, None), vec![]).ok().unwrap();
    contract.set_block_height_callback(p.proposal, 1);
    assert!(matches!(
        contract.edit_proposal(&eve, 0, body(TimelineStatus::Draft, None), vec![]),
        Err(ContractError::NotAllowedToEditProposal)
    ));
    assert!(matches!(
        contract.edit_proposal(&alice, 3, body(TimelineStatus::Draft, None), vec![]),
        Err(ContractError::ProposalNotFound)
    ));
    assert!(matches!(
        contract.edit_proposal(&alice, 0, body(TimelineStatus::Draft, Some(9)), vec![]),
        Err(ContractError::RfpNotFound)
    ));
    assert!(matches!(
        contract.add_proposal(&alice, body(TimelineStatus::Review(review(true)), None), vec![]),
        Err(ContractError::NotDraftOrReview)
    ));
}

#[test]
fn categories_can_be_replaced_by_moderators() {
    let mut contract = Contract::new();
    assert_eq!(contract.get_allowed_categories().len(), 7);
    assert!(matches!(
        contract.set_allowed_categories(&env("alice.near"), vec!["Only".to_string()]),
        Err(_)
    ));
    assert!(contract.set_allowed_categories(&env("devhub.near"), vec!["Only".to_string()]).is_ok());
    assert_eq!(contract.get_allowed_categories(), &vec!["Only".to_string()]);
}

#[test]
fn rfp_relabel_refusal_changes_nothing() {
    let mut contract = Contract::new();
    let admin = env("devhub.near");
    let alice = env("alice.near");
    let fx = contract
        .add_rfp(&admin, rfp_body(RfpTimeline::AcceptingSubmissions), vec!["old".to_string()])
        .ok()
        .unwrap();
    contract.set_rfp_block_height_callback(fx.rfp, 3);
    let p = contract.add_proposal(&alice, body(TimelineStatus::Draft, None), vec![]).ok().unwrap();
    contract.set_block_height_callback(p.proposal, 4);
    assert!(contract.edit_proposal(&alice, 0, body(TimelineStatus::Draft, Some(0)), vec![]).is_ok());
    assert_eq!(contract.get_proposals_by_label("old".to_string()), vec![0]);
    // The proposal's category is no longer allowed, so it cannot be relabelled.
    assert!(contract.set_allowed_categories(&admin, vec!["Other".to_string()]).is_ok());
    assert!(matches!(
        contract.edit_rfp(&admin, 0, rfp_body(RfpTimeline::AcceptingSubmissions), vec!["new".to_string()]),
        Err(ContractError::UnknownCategory)
    ));
    assert_eq!(contract.get_rfps_by_label("old".to_string()), vec![0]);
    assert!(contract.get_rfps_by_label("new".to_string()).is_empty());
    assert_eq!(contract.get_proposals_by_label("old".to_string()), vec![0]);
    // With the category allowed again, the relabelling goes through.
    assert!(contract.set_allowed_categories(&admin, vec!["Events".to_string()]).is_ok());
    let fx = contract
        .edit_rfp(&admin, 0, rfp_body(RfpTimeline::AcceptingSubmissions), vec!["new".to_string()])
        .ok()
        .unwrap();
    assert_eq!(fx.proposal_edits.len(), 1);
    assert_eq!(contract.get_proposals_by_label("new".to_string()), vec![0]);
    assert!(contract.get_proposals_by_label("old".to_string()).is_empty());
}
