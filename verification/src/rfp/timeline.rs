//! The timeline of a request for proposals.
use vstd::prelude::*;

verus! {

#[derive(Clone, Copy, PartialEq, Eq, Structural)]
pub enum TimelineStatus {
    AcceptingSubmissions,
    Evaluation,
    ProposalSelected,
    Cancelled,
}

impl TimelineStatus {
    pub fn is_accepting_submissions(&self) -> (r: bool)
        ensures
            r == (*self is AcceptingSubmissions),
    {
        matches!(self, TimelineStatus::AcceptingSubmissions)
    }

    pub fn is_cancelled(&self) -> (r: bool)
        ensures
            r == (*self is Cancelled),
    {
        matches!(self, TimelineStatus::Cancelled)
    }

    pub fn is_proposal_selected(&self) -> (r: bool)
        ensures
            r == (*self is ProposalSelected),
    {
        matches!(self, TimelineStatus::ProposalSelected)
    }
}

} // verus!
