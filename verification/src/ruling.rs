//! How a recall ends, by how the question of a lawyer ended.
use vstd::prelude::*;
use crate::ids::Ulid;
use crate::lawyer::ruled_evidence;
use crate::profiles::{joined, unruled_status};
use crate::records::graph::{RecallEvidence, RecallEvidenceModel, RecallStatus, RecallStatusModel};
use crate::records::verdict::{
    AdjudicatedRecall, AdjudicatedRecallModel, LawyerVerdict, LawyerVerdictModel,
};
use crate::table::{Replica, views};

verus! {

/// What came of asking a lawyer.
#[derive(Debug, PartialEq, Eq)]
pub enum Ruling {
    /// None was asked.
    Unasked,
    /// The lawyer gave a verdict.
    Ruled(LawyerVerdict),
    /// The lawyer failed, for a reason.
    Failed(String),
}

/// What a [`Ruling`] holds.
#[verifier::ext_equal]
pub enum RulingModel {
    Unasked,
    Ruled(LawyerVerdictModel),
    Failed(Seq<char>),
}

impl View for Ruling {
    type V = RulingModel;

    open spec fn view(&self) -> RulingModel {
        match self {
            Ruling::Unasked => RulingModel::Unasked,
            Ruling::Ruled(verdict) => RulingModel::Ruled(verdict@),
            Ruling::Failed(reason) => RulingModel::Failed(reason@),
        }
    }
}

/// The first pieces of evidence, up to a number of them.
pub open spec fn first_of(evidence: Seq<RecallEvidenceModel>, limit: usize) -> Seq<RecallEvidenceModel> {
    if evidence.len() <= limit {
        evidence
    } else {
        evidence.take(limit as int)
    }
}

fn first_pieces(evidence: &Vec<RecallEvidence>, limit: usize) -> (r: Vec<RecallEvidence>)
    ensures
        views(r@) == first_of(views(evidence@), limit),
{
    let ghost all = views(evidence@);
    assert(all.len() == evidence@.len());
    let mut r: Vec<RecallEvidence> = Vec::new();
    let mut i: usize = 0;
    assert(views(r@) =~= all.take(0));
    while i < evidence.len() && i < limit
        invariant
            i <= evidence@.len(),
            i <= limit,
            all == views(evidence@),
            all.len() == evidence@.len(),
            views(r@) == all.take(i as int),
        decreases evidence@.len() - i,
    {
        assert(views(evidence@)[i as int] == evidence@[i as int]@);
        let ghost before = r@;
        r.push(evidence[i].replica());
        assert(views(r@) =~= views(before).push(all[i as int]));
        assert(all.take(i + 1) =~= all.take(i as int).push(all[i as int]));
        i = i + 1;
    }
    assert(all.take(all.len() as int) =~= all);
    r
}

/// What a query is answered: what the verdict leaves, or else what was found, up to a
/// number of pieces, and how far the answer can be relied on. A failed lawyer is passed over
/// or lets the query fail.
pub open spec fn conclusion(
    operation_id: Ulid,
    evidence: Seq<RecallEvidenceModel>,
    ruling: RulingModel,
    degraded: Seq<Seq<char>>,
    passed_over: bool,
    limit: usize,
) -> Result<AdjudicatedRecallModel, Seq<char>> {
    match ruling {
        RulingModel::Unasked => Ok(
            AdjudicatedRecallModel {
                operation_id,
                evidence: first_of(evidence, limit),
                verdict: None,
                status: if degraded.len() == 0 {
                    RecallStatusModel::Deterministic
                } else {
                    RecallStatusModel::Degraded { reason: joined(degraded, degraded.len()) }
                },
            },
        ),
        RulingModel::Ruled(verdict) => Ok(
            AdjudicatedRecallModel {
                operation_id,
                evidence: first_of(verdict.leaves(evidence), limit),
                verdict: Some(verdict),
                status: RecallStatusModel::Adjudicated,
            },
        ),
        RulingModel::Failed(reason) => if passed_over {
            Ok(
                AdjudicatedRecallModel {
                    operation_id,
                    evidence: first_of(evidence, limit),
                    verdict: None,
                    status: RecallStatusModel::Degraded { reason },
                },
            )
        } else {
            Err(reason)
        },
    }
}

/// Ends a recall.
pub fn conclude(
    operation_id: Ulid,
    evidence: &Vec<RecallEvidence>,
    ruling: Ruling,
    degraded: &Vec<String>,
    passed_over: bool,
    limit: usize,
) -> (r: Result<AdjudicatedRecall, String>)
    ensures
        match (
            r,
            conclusion(operation_id, views(evidence@), ruling@, views(degraded@), passed_over, limit),
        ) {
            (Ok(answer), Ok(wanted)) => answer@ == wanted,
            (Err(reason), Err(wanted)) => reason@ == wanted,
            _ => false,
        },
{
    assert(views(degraded@).len() == degraded@.len());
    match ruling {
        Ruling::Unasked => Ok(
            AdjudicatedRecall {
                operation_id,
                evidence: first_pieces(evidence, limit),
                verdict: None,
                status: unruled_status(degraded),
            },
        ),
        Ruling::Ruled(verdict) => {
            let left = ruled_evidence(&verdict, evidence);
            Ok(
                AdjudicatedRecall {
                    operation_id,
                    evidence: first_pieces(&left, limit),
                    verdict: Some(verdict),
                    status: RecallStatus::Adjudicated,
                },
            )
        },
        Ruling::Failed(reason) => if passed_over {
            Ok(
                AdjudicatedRecall {
                    operation_id,
                    evidence: first_pieces(evidence, limit),
                    verdict: None,
                    status: RecallStatus::Degraded { reason },
                },
            )
        } else {
            Err(reason)
        },
    }
}

/// A recall never answers with more than it was asked for, and unless a lawyer ruled, with
/// nothing but the best of what was found.
pub proof fn answers_are_bounded(
    operation_id: Ulid,
    evidence: Seq<RecallEvidenceModel>,
    ruling: RulingModel,
    degraded: Seq<Seq<char>>,
    passed_over: bool,
    limit: usize,
)
    requires
        conclusion(operation_id, evidence, ruling, degraded, passed_over, limit) is Ok,
    ensures
        ({
            let answer = conclusion(operation_id, evidence, ruling, degraded, passed_over, limit)->Ok_0;
            &&& answer.evidence.len() <= limit
            &&& answer.verdict is None ==> answer.evidence.is_prefix_of(evidence)
            &&& answer.verdict is Some <==> answer.status == RecallStatusModel::Adjudicated
        }),
{
}

} // verus!
