//! The feedback of validation that a generator keeps: the latest rounds,
//! and no more than a fixed number of them.

use vstd::prelude::*;

verus! {

/// What the validation of one batch had to say.
#[derive(Debug, Clone)]
pub struct ValidationFeedback {
    pub common_issues: Vec<String>,
    pub improvement_suggestions: Vec<String>,
    pub quality_patterns: Vec<String>,
    pub avoid_patterns: Vec<String>,
    pub batch_summary: String,
}

/// How many rounds of feedback are kept.
pub const FEEDBACK_HISTORY_LIMIT: usize = 50;

/// The last `limit` elements of `rounds`, or all of them if there are
/// fewer.
pub open spec fn most_recent(rounds: Seq<ValidationFeedback>, limit: nat) -> Seq<
    ValidationFeedback,
> {
    if rounds.len() > limit {
        rounds.subrange(rounds.len() - limit, rounds.len() as int)
    } else {
        rounds
    }
}

/// The rounds of feedback that are kept, oldest first.
#[derive(Debug)]
pub struct FeedbackHistory {
    rounds: Vec<ValidationFeedback>,
}

impl View for FeedbackHistory {
    type V = Seq<ValidationFeedback>;

    closed spec fn view(&self) -> Seq<ValidationFeedback> {
        self.rounds@
    }
}

impl FeedbackHistory {
    #[verifier::type_invariant]
    spec fn bounded(self) -> bool {
        self.rounds.len() <= FEEDBACK_HISTORY_LIMIT
    }

    /// A history without any round.
    pub fn new() -> (history: Self)
        ensures
            history@ == Seq::<ValidationFeedback>::empty(),
    {
        FeedbackHistory { rounds: Vec::new() }
    }

    /// The number of rounds that are kept.
    pub fn len(&self) -> (n: usize)
        ensures
            n == self@.len(),
            n <= FEEDBACK_HISTORY_LIMIT,
    {
        proof {
            use_type_invariant(self);
        }
        self.rounds.len()
    }

    /// The round at `index`, the oldest one at zero.
    pub fn get(&self, index: usize) -> (round: Option<&ValidationFeedback>)
        ensures
            round is Some <==> index < self@.len(),
            round is Some ==> *round->Some_0 == self@[index as int],
    {
        if index < self.rounds.len() {
            Some(&self.rounds[index])
        } else {
            None
        }
    }

    /// Adds a round; where that makes more than the limit, the oldest
    /// round leaves.
    pub fn record(&mut self, feedback: ValidationFeedback)
        ensures
            final(self)@ == most_recent(old(self)@.push(feedback), FEEDBACK_HISTORY_LIMIT as nat),
    {
        proof {
            use_type_invariant(&*self);
        }
        let mut rounds: Vec<ValidationFeedback> = Vec::new();
        core::mem::swap(&mut rounds, &mut self.rounds);
        rounds.push(feedback);
        if rounds.len() > FEEDBACK_HISTORY_LIMIT {
            rounds.remove(0);
        }
        assert(rounds@ =~= most_recent(old(self)@.push(feedback), FEEDBACK_HISTORY_LIMIT as nat));
        self.rounds = rounds;
    }
}

} // verus!
