//! A log of the most recent changes to proposals and RFPs.
use crate::contract::{Contract, Env};
use vstd::prelude::*;

verus! {

/// The log keeps this many entries; adding one more drops the oldest.
pub const CHANGE_LOG_CAPACITY: usize = 50;

#[derive(Clone, Copy, PartialEq, Eq, Structural)]
pub enum ChangeLogType {
    Proposal(u32),
    RFP(u32),
}

#[derive(Clone, Copy, PartialEq, Eq, Structural)]
pub struct ChangeLog {
    pub block_id: u64,
    pub block_timestamp: u64,
    pub change_log_type: ChangeLogType,
}

/// The log after appending `entry`: the oldest entry leaves once the log is full.
pub open spec fn log_after(log: Seq<ChangeLog>, entry: ChangeLog) -> Seq<ChangeLog> {
    if log.len() >= CHANGE_LOG_CAPACITY {
        log.subrange(1, log.len() as int).push(entry)
    } else {
        log.push(entry)
    }
}

impl Contract {
    /// Records a change at the current block, as a first-in first-out queue of
    /// at most fifty entries.
    pub fn add_change_log(&mut self, env: &Env, change_log_type: ChangeLogType)
        ensures
            final(self).change_log@ == log_after(
                old(self).change_log@,
                (ChangeLog {
                    block_id: env.block_height,
                    block_timestamp: env.block_timestamp,
                    change_log_type,
                }),
            ),
            final(self).posts == old(self).posts,
            final(self).proposals == old(self).proposals,
            final(self).rfps == old(self).rfps,
    {
        let new_log = ChangeLog {
            block_id: env.block_height,
            block_timestamp: env.block_timestamp,
            change_log_type,
        };
        if self.change_log.len() >= CHANGE_LOG_CAPACITY {
            self.change_log.remove(0);
        }
        self.change_log.push(new_log);
    }
}

/// The log never holds more than its capacity, and its newest entry is the last one added.
pub proof fn law_change_log_bounded(log: Seq<ChangeLog>, entry: ChangeLog)
    requires
        log.len() <= CHANGE_LOG_CAPACITY,
    ensures
        log_after(log, entry).len() <= CHANGE_LOG_CAPACITY,
        log_after(log, entry).last() == entry,
        log.len() < CHANGE_LOG_CAPACITY ==> log_after(log, entry).len() == log.len() + 1,
{
}

} // verus!
