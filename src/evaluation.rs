use vstd::prelude::*;

use crate::record::{CycleResult, MatchRecord};

verus! {

/// What came back from running one rule's query against the search backend.
pub enum SearchReply {
    /// The backend could not be reached.
    Unreachable,
    /// The backend answered with `status`; `matches` is the match list read
    /// off the body, or `None` where the body could not be read as one.
    Answered { status: u16, matches: Option<Vec<MatchRecord>> },
}

/// Why a rule's evaluation failed for this cycle.
#[derive(PartialEq, Eq, Structural, Debug)]
pub enum Failure {
    Unreachable,
    Status(u16),
    Unparsable,
}

/// The outcome of evaluating one rule.
pub enum Evaluation {
    /// The evaluation failed; the rule has no result this cycle.
    Failed(Failure),
    /// The evaluation succeeded with zero matches.
    NoMatches,
    /// The evaluation succeeded with at least one match.
    Matched(CycleResult),
}

/// A status in the 2xx range.
pub open spec fn is_success_status(status: u16) -> bool {
    200 <= status < 300
}

pub fn is_success(status: u16) -> (r: bool)
    ensures
        r == is_success_status(status),
{
    200 <= status && status < 300
}

/// What evaluating rule `rule_id` amounts to, given the backend's reply.
pub open spec fn assessment(rule_id: String, reply: SearchReply) -> Evaluation {
    match reply {
        SearchReply::Unreachable => Evaluation::Failed(Failure::Unreachable),
        SearchReply::Answered { status, matches } => {
            if !is_success_status(status) {
                Evaluation::Failed(Failure::Status(status))
            } else {
                match matches {
                    None => Evaluation::Failed(Failure::Unparsable),
                    Some(v) => if v@.len() == 0 {
                        Evaluation::NoMatches
                    } else {
                        Evaluation::Matched(CycleResult { rule_id, matches: v })
                    },
                }
            }
        },
    }
}

/// Decides what one rule's evaluation produced: a failure for an
/// unreachable backend, a non-success status or an unreadable body; no
/// result for zero matches; otherwise a cycle result holding every match.
pub fn assess(rule_id: String, reply: SearchReply) -> (r: Evaluation)
    ensures
        r == assessment(rule_id, reply),
{
    match reply {
        SearchReply::Unreachable => Evaluation::Failed(Failure::Unreachable),
        SearchReply::Answered { status, matches } => {
            if !is_success(status) {
                Evaluation::Failed(Failure::Status(status))
            } else {
                match matches {
                    None => Evaluation::Failed(Failure::Unparsable),
                    Some(v) => if v.len() == 0 {
                        Evaluation::NoMatches
                    } else {
                        Evaluation::Matched(CycleResult { rule_id, matches: v })
                    },
                }
            }
        },
    }
}

/// An evaluation with zero matches never yields a cycle result, and one
/// that yields a result yields a non-empty one.
pub proof fn lemma_no_empty_result(rule_id: String, reply: SearchReply)
    ensures
        match assessment(rule_id, reply) {
            Evaluation::Matched(res) => res.is_nonempty() && res.rule_id == rule_id,
            _ => true,
        },
        (reply matches SearchReply::Answered { matches: Some(v), .. } && v@.len() == 0)
            ==> !(assessment(rule_id, reply) is Matched),
{
}

} // verus!
