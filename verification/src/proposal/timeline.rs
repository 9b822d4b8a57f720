//! The timeline of a proposal: where it stands between draft and funding.
use vstd::prelude::*;

verus! {

/// The current timeline representation.
pub type TimelineStatus = TimelineStatusV2;

/// The current review status representation.
pub type ReviewStatus = ReviewStatusV2;

pub enum TimelineStatusV1 {
    Draft,
    Review(ReviewStatusV1),
    Approved(ReviewStatusV1),
    Rejected(ReviewStatusV1),
    ApprovedConditionally(ReviewStatusV1),
    PaymentProcessing(PaymentProcessingStatusV1),
    Funded(FundedStatusV1),
    Cancelled(ReviewStatusV1),
}

pub enum VersionedTimelineStatus {
    V1(TimelineStatusV2),
}

pub enum TimelineStatusV2 {
    Draft,
    Review(ReviewStatusV2),
    Approved(ReviewStatusV2),
    Rejected(ReviewStatusV2),
    ApprovedConditionally(ReviewStatusV2),
    PaymentProcessing(PaymentProcessingStatusV2),
    Funded(FundedStatusV2),
    Cancelled(ReviewStatusV2),
}

#[derive(Clone, Copy, PartialEq, Eq, Structural)]
pub struct ReviewStatusV1 {
    pub sponsor_requested_review: bool,
    pub reviewer_completed_attestation: bool,
}

#[derive(Clone, Copy, PartialEq, Eq, Structural)]
pub struct ReviewStatusV2 {
    pub sponsor_requested_review: bool,
    pub reviewer_completed_attestation: bool,
    pub kyc_verified: bool,
}

#[derive(Clone, Copy, PartialEq, Eq, Structural)]
pub struct PaymentProcessingStatusV1 {
    pub review_status: ReviewStatusV1,
    pub kyc_verified: bool,
    pub test_transaction_sent: bool,
    pub request_for_trustees_created: bool,
}

#[derive(Clone, Copy, PartialEq, Eq, Structural)]
pub struct PaymentProcessingStatusV2 {
    pub review_status: ReviewStatusV2,
    pub kyc_verified_deprecated: bool,
    pub test_transaction_sent: bool,
    pub request_for_trustees_created: bool,
}

pub struct FundedStatusV1 {
    pub payment_processing_status: PaymentProcessingStatusV1,
    pub trustees_released_payment: bool,
    pub payouts: Vec<String>,
}

pub struct FundedStatusV2 {
    pub payment_processing_status: PaymentProcessingStatusV2,
    pub trustees_released_payment: bool,
    pub payouts: Vec<String>,
}

/// A first-version review status with its KYC flag made explicit.
pub open spec fn review_status_v2(review_status: ReviewStatusV1, kyc_verified: bool) -> ReviewStatusV2 {
    ReviewStatusV2 {
        sponsor_requested_review: review_status.sponsor_requested_review,
        reviewer_completed_attestation: review_status.reviewer_completed_attestation,
        kyc_verified,
    }
}

/// Upgrades a first-version review status, taking the KYC flag from the caller.
pub fn convert_review_status_to_v1(review_status: ReviewStatusV1, kyc_verified: bool) -> (r: ReviewStatusV2)
    ensures
        r == review_status_v2(review_status, kyc_verified),
{
    ReviewStatusV2 {
        sponsor_requested_review: review_status.sponsor_requested_review,
        reviewer_completed_attestation: review_status.reviewer_completed_attestation,
        kyc_verified: kyc_verified,
    }
}

/// The KYC flag of a first-version payment status moves into its review status.
pub open spec fn payment_processing_v2(value: PaymentProcessingStatusV1) -> PaymentProcessingStatusV2 {
    PaymentProcessingStatusV2 {
        review_status: review_status_v2(value.review_status, value.kyc_verified),
        kyc_verified_deprecated: false,
        test_transaction_sent: value.test_transaction_sent,
        request_for_trustees_created: value.request_for_trustees_created,
    }
}

impl From<PaymentProcessingStatusV1> for PaymentProcessingStatusV2 {
    fn from(value: PaymentProcessingStatusV1) -> (r: Self)
        ensures
            r == payment_processing_v2(value),
    {
        PaymentProcessingStatusV2 {
            review_status: convert_review_status_to_v1(value.review_status, value.kyc_verified),
            kyc_verified_deprecated: false,
            test_transaction_sent: value.test_transaction_sent,
            request_for_trustees_created: value.request_for_trustees_created,
        }
    }
}

impl vstd::std_specs::convert::FromSpecImpl<PaymentProcessingStatusV1> for PaymentProcessingStatusV2 {
    open spec fn obeys_from_spec() -> bool {
        true
    }

    open spec fn from_spec(v: PaymentProcessingStatusV1) -> Self {
        payment_processing_v2(v)
    }
}

pub open spec fn funded_v2(value: FundedStatusV1) -> FundedStatusV2 {
    FundedStatusV2 {
        payment_processing_status: payment_processing_v2(value.payment_processing_status),
        trustees_released_payment: value.trustees_released_payment,
        payouts: value.payouts,
    }
}

impl From<FundedStatusV1> for FundedStatusV2 {
    fn from(value: FundedStatusV1) -> (r: Self)
        ensures
            r == funded_v2(value),
    {
        FundedStatusV2 {
            payment_processing_status: PaymentProcessingStatusV2::from(value.payment_processing_status),
            trustees_released_payment: value.trustees_released_payment,
            payouts: value.payouts,
        }
    }
}

impl vstd::std_specs::convert::FromSpecImpl<FundedStatusV1> for FundedStatusV2 {
    open spec fn obeys_from_spec() -> bool {
        true
    }

    open spec fn from_spec(v: FundedStatusV1) -> Self {
        funded_v2(v)
    }
}

/// The second-version timeline of a first-version one: review statuses get a
/// cleared KYC flag, payment states carry theirs over.
pub open spec fn timeline_v2(value: TimelineStatusV1) -> TimelineStatusV2 {
    match value {
        TimelineStatusV1::Draft => TimelineStatusV2::Draft,
        TimelineStatusV1::Review(s) => TimelineStatusV2::Review(review_status_v2(s, false)),
        TimelineStatusV1::Approved(s) => TimelineStatusV2::Approved(review_status_v2(s, false)),
        TimelineStatusV1::Rejected(s) => TimelineStatusV2::Rejected(review_status_v2(s, false)),
        TimelineStatusV1::ApprovedConditionally(s) => TimelineStatusV2::ApprovedConditionally(
            review_status_v2(s, false),
        ),
        TimelineStatusV1::PaymentProcessing(p) => TimelineStatusV2::PaymentProcessing(payment_processing_v2(p)),
        TimelineStatusV1::Funded(f) => TimelineStatusV2::Funded(funded_v2(f)),
        TimelineStatusV1::Cancelled(s) => TimelineStatusV2::Cancelled(review_status_v2(s, false)),
    }
}

impl From<TimelineStatusV1> for TimelineStatusV2 {
    fn from(value: TimelineStatusV1) -> (r: Self)
        ensures
            r == timeline_v2(value),
    {
        match value {
            TimelineStatusV1::Draft => TimelineStatusV2::Draft,
            TimelineStatusV1::Review(s) => TimelineStatusV2::Review(convert_review_status_to_v1(s, false)),
            TimelineStatusV1::Approved(s) => TimelineStatusV2::Approved(convert_review_status_to_v1(s, false)),
            TimelineStatusV1::Rejected(s) => TimelineStatusV2::Rejected(convert_review_status_to_v1(s, false)),
            TimelineStatusV1::ApprovedConditionally(s) => TimelineStatusV2::ApprovedConditionally(
                convert_review_status_to_v1(s, false),
            ),
            TimelineStatusV1::PaymentProcessing(p) => TimelineStatusV2::PaymentProcessing(
                PaymentProcessingStatusV2::from(p),
            ),
            TimelineStatusV1::Funded(f) => TimelineStatusV2::Funded(FundedStatusV2::from(f)),
            TimelineStatusV1::Cancelled(s) => TimelineStatusV2::Cancelled(convert_review_status_to_v1(s, false)),
        }
    }
}

impl vstd::std_specs::convert::FromSpecImpl<TimelineStatusV1> for TimelineStatusV2 {
    open spec fn obeys_from_spec() -> bool {
        true
    }

    open spec fn from_spec(v: TimelineStatusV1) -> Self {
        timeline_v2(v)
    }
}

impl VersionedTimelineStatus {
    pub open spec fn inner(self) -> TimelineStatusV2 {
        match self {
            VersionedTimelineStatus::V1(v1) => v1,
        }
    }

    /// The timeline in its current representation.
    pub fn latest_version(self) -> (r: TimelineStatus)
        ensures
            r == self.inner(),
    {
        TimelineStatusV2::from(self)
    }
}

impl From<VersionedTimelineStatus> for TimelineStatusV2 {
    fn from(value: VersionedTimelineStatus) -> (r: Self)
        ensures
            r == value.inner(),
    {
        match value {
            VersionedTimelineStatus::V1(v1) => v1,
        }
    }
}

impl vstd::std_specs::convert::FromSpecImpl<VersionedTimelineStatus> for TimelineStatusV2 {
    open spec fn obeys_from_spec() -> bool {
        true
    }

    open spec fn from_spec(v: VersionedTimelineStatus) -> Self {
        v.inner()
    }
}

impl From<TimelineStatusV2> for VersionedTimelineStatus {
    fn from(value: TimelineStatusV2) -> (r: Self)
        ensures
            r == VersionedTimelineStatus::V1(value),
    {
        VersionedTimelineStatus::V1(value)
    }
}

impl vstd::std_specs::convert::FromSpecImpl<TimelineStatusV2> for VersionedTimelineStatus {
    open spec fn obeys_from_spec() -> bool {
        true
    }

    open spec fn from_spec(v: TimelineStatusV2) -> Self {
        VersionedTimelineStatus::V1(v)
    }
}

impl From<TimelineStatusV1> for VersionedTimelineStatus {
    fn from(value: TimelineStatusV1) -> (r: Self)
        ensures
            r == VersionedTimelineStatus::V1(timeline_v2(value)),
    {
        VersionedTimelineStatus::V1(TimelineStatusV2::from(value))
    }
}

impl vstd::std_specs::convert::FromSpecImpl<TimelineStatusV1> for VersionedTimelineStatus {
    open spec fn obeys_from_spec() -> bool {
        true
    }

    open spec fn from_spec(v: TimelineStatusV1) -> Self {
        VersionedTimelineStatus::V1(timeline_v2(v))
    }
}

/// The review status that a timeline state carries; a draft carries an empty one.
pub open spec fn review_status_of(t: TimelineStatusV2) -> ReviewStatusV2 {
    match t {
        TimelineStatusV2::Review(s) => s,
        TimelineStatusV2::Approved(s) => s,
        TimelineStatusV2::Rejected(s) => s,
        TimelineStatusV2::ApprovedConditionally(s) => s,
        TimelineStatusV2::Cancelled(s) => s,
        TimelineStatusV2::PaymentProcessing(p) => p.review_status,
        TimelineStatusV2::Funded(f) => f.payment_processing_status.review_status,
        TimelineStatusV2::Draft => ReviewStatusV2 {
            sponsor_requested_review: false,
            reviewer_completed_attestation: false,
            kyc_verified: false,
        },
    }
}

/// A timeline that has passed approval: approved (plainly or conditionally),
/// in payment processing, or funded.
pub open spec fn approved_state(t: TimelineStatusV2) -> bool {
    t is Approved || t is ApprovedConditionally || t is PaymentProcessing || t is Funded
}

impl TimelineStatusV2 {
    pub fn is_draft(&self) -> (r: bool)
        ensures
            r == (*self is Draft),
    {
        matches!(self, TimelineStatusV2::Draft)
    }

    /// In the Review state with no sponsor request and no completed attestation yet.
    pub fn is_empty_review(&self) -> (r: bool)
        ensures
            r == (*self matches TimelineStatusV2::Review(s) && !s.sponsor_requested_review
                && !s.reviewer_completed_attestation),
    {
        match self {
            TimelineStatusV2::Review(review_status) => {
                !review_status.sponsor_requested_review && !review_status.reviewer_completed_attestation
            },
            _ => false,
        }
    }

    pub fn is_review(&self) -> (r: bool)
        ensures
            r == (*self is Review),
    {
        matches!(self, TimelineStatusV2::Review(..))
    }

    pub fn is_cancelled(&self) -> (r: bool)
        ensures
            r == (*self is Cancelled),
    {
        matches!(self, TimelineStatusV2::Cancelled(..))
    }

    /// Only a draft or a proposal in review can be cancelled.
    pub fn can_be_cancelled(&self) -> (r: bool)
        ensures
            r == (*self is Draft || *self is Review),
    {
        match self {
            TimelineStatusV2::Draft => true,
            TimelineStatusV2::Review(..) => true,
            _ => false,
        }
    }

    pub fn was_approved(&self) -> (r: bool)
        ensures
            r == approved_state(*self),
    {
        match self {
            TimelineStatusV2::Approved(..) => true,
            TimelineStatusV2::ApprovedConditionally(..) => true,
            TimelineStatusV2::PaymentProcessing(..) => true,
            TimelineStatusV2::Funded(..) => true,
            _ => false,
        }
    }

    /// The review status of this state (an empty one for a draft).
    pub fn get_review_status(&self) -> (r: ReviewStatus)
        ensures
            r == review_status_of(*self),
    {
        match self {
            TimelineStatusV2::Review(s) => *s,
            TimelineStatusV2::Approved(s) => *s,
            TimelineStatusV2::Rejected(s) => *s,
            TimelineStatusV2::ApprovedConditionally(s) => *s,
            TimelineStatusV2::Cancelled(s) => *s,
            TimelineStatusV2::PaymentProcessing(p) => p.review_status,
            TimelineStatusV2::Funded(f) => f.payment_processing_status.review_status,
            TimelineStatusV2::Draft => ReviewStatusV2 {
                sponsor_requested_review: false,
                reviewer_completed_attestation: false,
                kyc_verified: false,
            },
        }
    }
}

/// A timeline state with its payouts taken by their text.
pub enum TimelineView {
    Draft,
    Review(ReviewStatusV2),
    Approved(ReviewStatusV2),
    Rejected(ReviewStatusV2),
    ApprovedConditionally(ReviewStatusV2),
    PaymentProcessing(PaymentProcessingStatusV2),
    Funded(PaymentProcessingStatusV2, bool, Seq<Seq<char>>),
    Cancelled(ReviewStatusV2),
}

pub open spec fn timeline_view(t: TimelineStatusV2) -> TimelineView {
    match t {
        TimelineStatusV2::Draft => TimelineView::Draft,
        TimelineStatusV2::Review(s) => TimelineView::Review(s),
        TimelineStatusV2::Approved(s) => TimelineView::Approved(s),
        TimelineStatusV2::Rejected(s) => TimelineView::Rejected(s),
        TimelineStatusV2::ApprovedConditionally(s) => TimelineView::ApprovedConditionally(s),
        TimelineStatusV2::PaymentProcessing(p) => TimelineView::PaymentProcessing(p),
        TimelineStatusV2::Funded(f) => TimelineView::Funded(
            f.payment_processing_status,
            f.trustees_released_payment,
            crate::access_control::rules::strings_view(f.payouts@),
        ),
        TimelineStatusV2::Cancelled(s) => TimelineView::Cancelled(s),
    }
}

impl TimelineStatusV2 {
    /// A copy of the timeline state.
    pub fn deep_clone(&self) -> (r: TimelineStatusV2)
        ensures
            timeline_view(r) == timeline_view(*self),
    {
        match self {
            TimelineStatusV2::Draft => TimelineStatusV2::Draft,
            TimelineStatusV2::Review(s) => TimelineStatusV2::Review(*s),
            TimelineStatusV2::Approved(s) => TimelineStatusV2::Approved(*s),
            TimelineStatusV2::Rejected(s) => TimelineStatusV2::Rejected(*s),
            TimelineStatusV2::ApprovedConditionally(s) => TimelineStatusV2::ApprovedConditionally(*s),
            TimelineStatusV2::PaymentProcessing(p) => TimelineStatusV2::PaymentProcessing(*p),
            TimelineStatusV2::Funded(f) => TimelineStatusV2::Funded(
                FundedStatusV2 {
                    payment_processing_status: f.payment_processing_status,
                    trustees_released_payment: f.trustees_released_payment,
                    payouts: crate::contract::labels::clone_strings(&f.payouts),
                },
            ),
            TimelineStatusV2::Cancelled(s) => TimelineStatusV2::Cancelled(*s),
        }
    }
}

} // verus!
