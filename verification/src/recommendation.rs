//! Recommendations: the analysis artifact attached to a proposal.
//!
//! A recommendation carries assessment documents (kept as serialized
//! text) and a weighted vote suggestion.  Weights are fixed-point parts
//! of [`WEIGHT_SCALE`]: a full vote for one option is `WEIGHT_SCALE`
//! parts, and a well-formed weighting sums to `WEIGHT_SCALE` within
//! [`WEIGHT_EPSILON`] rounding slack.

use vstd::prelude::*;

verus! {

/// The whole of one vote, in fixed-point weight parts.
pub const WEIGHT_SCALE: u64 = 1_000_000;

/// Rounding slack allowed when the weights of a suggestion are summed.
pub const WEIGHT_EPSILON: u64 = 1_000;

/// A persisted analysis row.  Append-only: the engine never updates or
/// deletes one.  `new_flag` marks a row not yet consumed by the one-shot
/// notification read.
pub struct Recommendation {
    pub proposal_id: String,
    pub technical_impact: String,
    pub economic_consequences: String,
    pub governance_and_decentralization: String,
    pub advantages: String,
    pub risks: String,
    pub recommendation: Vec<(String, u64)>,
    pub created_at: i64,
    pub new_flag: bool,
}

/// The mathematical value of a recommendation row: the same fields with
/// the weighting as a sequence.
pub struct RecView {
    pub proposal_id: String,
    pub technical_impact: String,
    pub economic_consequences: String,
    pub governance_and_decentralization: String,
    pub advantages: String,
    pub risks: String,
    pub recommendation: Seq<(String, u64)>,
    pub created_at: i64,
    pub new_flag: bool,
}

impl View for Recommendation {
    type V = RecView;

    open spec fn view(&self) -> RecView {
        RecView {
            proposal_id: self.proposal_id,
            technical_impact: self.technical_impact,
            economic_consequences: self.economic_consequences,
            governance_and_decentralization: self.governance_and_decentralization,
            advantages: self.advantages,
            risks: self.risks,
            recommendation: self.recommendation@,
            created_at: self.created_at,
            new_flag: self.new_flag,
        }
    }
}

/// What the analysis collaborator hands back, already reduced to plain
/// values: assessment documents as text and the weighted suggestion as
/// fixed-point parts.
pub struct Analysis {
    pub technical_impact: String,
    pub economic_consequences: String,
    pub governance_and_decentralization: String,
    pub advantages: String,
    pub risks: String,
    pub recommendation: Vec<(String, u64)>,
}

/// Sum of the weights of a suggestion.
pub open spec fn sum_weights(ws: Seq<(String, u64)>) -> int
    decreases ws.len(),
{
    if ws.len() == 0 {
        0
    } else {
        sum_weights(ws.drop_last()) + ws.last().1
    }
}

/// A well-formed weighting: no single option outweighs the whole vote,
/// and the weights sum to the whole vote within rounding slack.
pub open spec fn weights_ok(ws: Seq<(String, u64)>) -> bool {
    &&& forall|i: int| 0 <= i < ws.len() ==> (#[trigger] ws[i]).1 <= WEIGHT_SCALE
    &&& WEIGHT_SCALE - WEIGHT_EPSILON <= sum_weights(ws) <= WEIGHT_SCALE + WEIGHT_EPSILON
}

/// A recommendation row the store accepts: it references a proposal and
/// its weighting is well-formed.
pub open spec fn rec_wf(r: RecView) -> bool {
    &&& r.proposal_id@.len() > 0
    &&& weights_ok(r.recommendation)
}

/// Decide whether a weighting is well-formed.
pub fn check_weights(ws: &Vec<(String, u64)>) -> (b: bool)
    ensures
        b == weights_ok(ws@),
{
    let mut sum: u128 = 0;
    let mut i: usize = 0;
    while i < ws.len()
        invariant
            i <= ws@.len(),
            forall|j: int| 0 <= j < i ==> (#[trigger] ws@[j]).1 <= WEIGHT_SCALE,
            sum == sum_weights(ws@.take(i as int)),
            sum <= (i as int) * (WEIGHT_SCALE as int),
        decreases ws@.len() - i,
    {
        if ws[i].1 > WEIGHT_SCALE {
            return false;
        }
        proof {
            assert(ws@.take(i + 1).drop_last() =~= ws@.take(i as int));
            assert(ws@.take(i + 1).last() == ws@[i as int]);
        }
        sum = sum + ws[i].1 as u128;
        i = i + 1;
    }
    proof {
        assert(ws@.take(ws@.len() as int) =~= ws@);
    }
    sum >= (WEIGHT_SCALE - WEIGHT_EPSILON) as u128 && sum <= (WEIGHT_SCALE + WEIGHT_EPSILON) as u128
}

fn clone_weights(ws: &Vec<(String, u64)>) -> (r: Vec<(String, u64)>)
    ensures
        r@ == ws@,
{
    let mut r: Vec<(String, u64)> = Vec::new();
    let mut i: usize = 0;
    while i < ws.len()
        invariant
            i <= ws@.len(),
            r@ =~= ws@.take(i as int),
        decreases ws@.len() - i,
    {
        r.push((ws[i].0.clone(), ws[i].1));
        proof {
            assert(r@ =~= ws@.take(i + 1));
        }
        i = i + 1;
    }
    proof {
        assert(ws@.take(ws@.len() as int) =~= ws@);
    }
    r
}

impl Clone for Recommendation {
    fn clone(&self) -> (res: Self)
        ensures
            res@ == self@,
    {
        Recommendation {
            proposal_id: self.proposal_id.clone(),
            technical_impact: self.technical_impact.clone(),
            economic_consequences: self.economic_consequences.clone(),
            governance_and_decentralization: self.governance_and_decentralization.clone(),
            advantages: self.advantages.clone(),
            risks: self.risks.clone(),
            recommendation: clone_weights(&self.recommendation),
            created_at: self.created_at,
            new_flag: self.new_flag,
        }
    }
}

/// The row one successful analysis leaves behind: the documents and the
/// suggestion from the analysis, stamped with the proposal it belongs
/// to and the time of creation, marked unconsumed.
pub open spec fn rec_of(proposal_id: String, a: Analysis, now: i64) -> RecView {
    RecView {
        proposal_id: proposal_id,
        technical_impact: a.technical_impact,
        economic_consequences: a.economic_consequences,
        governance_and_decentralization: a.governance_and_decentralization,
        advantages: a.advantages,
        risks: a.risks,
        recommendation: a.recommendation@,
        created_at: now,
        new_flag: true,
    }
}

/// Build the recommendation row for one successful analysis.
pub fn make_recommendation(proposal_id: &String, a: &Analysis, now: i64) -> (r: Recommendation)
    ensures
        r@ == rec_of(*proposal_id, *a, now),
{
    Recommendation {
        proposal_id: proposal_id.clone(),
        technical_impact: a.technical_impact.clone(),
        economic_consequences: a.economic_consequences.clone(),
        governance_and_decentralization: a.governance_and_decentralization.clone(),
        advantages: a.advantages.clone(),
        risks: a.risks.clone(),
        recommendation: clone_weights(&a.recommendation),
        created_at: now,
        new_flag: true,
    }
}

} // verus!
