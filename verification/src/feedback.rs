//! Feedback on recall, and the audit trail.
use vstd::prelude::*;
use crate::clock::{Fresh, FreshModel};
use crate::context::OperationContext;
use crate::digest::{mutation_digest, mutation_digest_of};
use crate::fault::{CorruptFault, InputFault, MemoryError, MemoryResult, corrupt};
use crate::ids::RecallFeedbackId;
use crate::inspect::{lookup, shown_list};
use crate::order::{in_order, lists};
use crate::records::audit::{AuditAction, AuditEvent, AuditEventModel};
use crate::records::evidence::{Actor, RecordRef};
use crate::records::proposal::{NewRecallFeedback, RecallFeedback, RecallFeedbackKind};
use crate::records::recall::{RecallCaseCandidate, RecordRevisionPin};
use crate::records::receipt::{Receipt, ReceiptModel};
use crate::staging::{Planned, commits, plans};
use crate::store::{Batch, MemoryDatabase, StoreModel, Write, WriteModel};
use crate::table::{Replica, views};

verus! {

/// Whether a recall case pins a record at a revision.
pub open spec fn case_pins(candidates: Seq<RecallCaseCandidate>, pin: RecordRevisionPin) -> bool {
    exists|i: int|
        0 <= i < candidates.len() && (#[trigger] candidates[i]).record == pin.record && candidates[i].revision
            == pin.revision
}

fn is_pinned_by_case(candidates: &Vec<RecallCaseCandidate>, pin: RecordRevisionPin) -> (r: bool)
    ensures
        r == case_pins(candidates@, pin),
{
    for i in 0..candidates.len()
        invariant
            forall|j: int|
                0 <= j < i ==> !((#[trigger] candidates@[j]).record == pin.record && candidates@[j].revision
                    == pin.revision),
    {
        if candidates[i].record == pin.record && candidates[i].revision == pin.revision {
            return true;
        }
    }
    false
}

impl StoreModel {
    /// Why feedback is refused before anything is looked up.
    pub open spec fn feedback_request_fault(actor: Actor, input: NewRecallFeedback) -> Option<MemoryError> {
        if actor == Actor::Assistant {
            Some(MemoryError::Unauthorized)
        } else if input.kind == RecallFeedbackKind::MissingExpectedRecord && input.candidate is Some {
            Some(MemoryError::InvalidInput(InputFault::FeedbackWithCandidate))
        } else if input.kind != RecallFeedbackKind::MissingExpectedRecord && input.candidate is None {
            Some(MemoryError::InvalidInput(InputFault::FeedbackWithoutCandidate))
        } else {
            None
        }
    }

    /// Why feedback does not fit the recall case that it names.
    #[verifier::opaque]
    pub open spec fn feedback_fault(self, input: NewRecallFeedback) -> Option<MemoryError> {
        match lookup(self.recall_cases, input.recall_case_id) {
            None => Some(MemoryError::InvalidInput(InputFault::RecallCaseMissing)),
            Some(case) => if case.revision != input.recall_case_revision {
                Some(
                    MemoryError::RevisionConflict {
                        expected: input.recall_case_revision,
                        actual: case.revision,
                    },
                )
            } else {
                match input.candidate {
                    None => None,
                    Some(pin) => if case_pins(case.candidates, pin) {
                        None
                    } else {
                        Some(MemoryError::InvalidInput(InputFault::FeedbackCandidateUnpinned))
                    },
                }
            },
        }
    }

    /// Recording feedback. The first identifier drawn is the audit event's, the second
    /// the feedback's.
    pub open spec fn record_recall_feedback(
        self,
        operation: OperationContext,
        input: NewRecallFeedback,
        request: Seq<u8>,
        fresh: FreshModel,
    ) -> MemoryResult<(StoreModel, RecallFeedback)> {
        let digest = mutation_digest_of(self.digest_key@, "record_recall_feedback"@, operation.actor, request);
        match Self::feedback_request_fault(operation.actor, input) {
            Some(error) => Err(error),
            None => match self.replay(operation.id, digest) {
                Err(error) => Err(error),
                Ok(Some(ReceiptModel::Feedback(feedback))) => Ok((self, feedback)),
                Ok(Some(_)) => corrupt(CorruptFault::ReceiptShape),
                Ok(None) => match self.feedback_fault(input) {
                    Some(error) => Err(error),
                    None => {
                        let feedback = RecallFeedback {
                            id: RecallFeedbackId(fresh.ids[1]),
                            era_id: self.era_id,
                            operation_id: operation.id,
                            actor: operation.actor,
                            recall_case_id: input.recall_case_id,
                            recall_case_revision: input.recall_case_revision,
                            candidate: input.candidate,
                            kind: input.kind,
                            recorded_at_ms: fresh.recorded_at_ms,
                        };
                        Ok(
                            (
                                self.put(WriteModel::PutFeedback(feedback.id, feedback)).audited(
                                    self.audit_event(
                                        fresh.ids[0],
                                        operation,
                                        AuditAction::RecallFeedbackRecorded,
                                        match input.candidate {
                                            Some(pin) => seq![pin.record],
                                            None => Seq::empty(),
                                        },
                                        Seq::empty(),
                                        None,
                                        fresh.recorded_at_ms,
                                    ),
                                ).remembered(operation.id, digest, ReceiptModel::Feedback(feedback)),
                                feedback,
                            ),
                        )
                    },
                },
            },
        }
    }

    /// The audit trail in the order of its events, at most `limit` of them.
    pub open spec fn audit_trail(self, limit: usize) -> Seq<AuditEventModel> {
        let keys = in_order(self.audit.dom());
        Seq::new(
            if keys.len() <= limit {
                keys.len()
            } else {
                limit as nat
            },
            |i: int| self.audit[keys[i]],
        )
    }
}

impl MemoryDatabase {
    fn check_feedback(&self, input: NewRecallFeedback) -> (r: MemoryResult<()>)
        ensures
            r == (match self@.feedback_fault(input) {
                Some(error) => Err(error),
                None => Ok(()),
            }),
    {
        reveal(StoreModel::feedback_fault);
        let case = match self.recall_cases.get(&input.recall_case_id) {
            Some(case) => case,
            None => return Err(MemoryError::InvalidInput(InputFault::RecallCaseMissing)),
        };
        if case.revision != input.recall_case_revision {
            return Err(
                MemoryError::RevisionConflict { expected: input.recall_case_revision, actual: case.revision },
            );
        }
        if let Some(pin) = input.candidate {
            if !is_pinned_by_case(&case.candidates, pin) {
                return Err(MemoryError::InvalidInput(InputFault::FeedbackCandidateUnpinned));
            }
        }
        Ok(())
    }

    /// What recording feedback would do with the given instant and identifiers. `request`
    /// encodes the feedback.
    pub fn plan_record_recall_feedback(
        &self,
        operation: OperationContext,
        input: NewRecallFeedback,
        request: &[u8],
        fresh: &Fresh,
    ) -> (r: MemoryResult<Planned<RecallFeedback>>)
        requires
            fresh.ids@.len() == 2,
        ensures
            plans(self@, r, self@.record_recall_feedback(operation, input, request@, fresh@)),
    {
        if operation.actor == Actor::Assistant {
            return Err(MemoryError::Unauthorized);
        }
        let missing = input.kind == RecallFeedbackKind::MissingExpectedRecord;
        if missing && input.candidate.is_some() {
            return Err(MemoryError::InvalidInput(InputFault::FeedbackWithCandidate));
        }
        if !missing && input.candidate.is_none() {
            return Err(MemoryError::InvalidInput(InputFault::FeedbackWithoutCandidate));
        }
        let digest = mutation_digest(&self.digest_key, "record_recall_feedback", operation.actor, request);
        let mut batch = Batch::new();
        match self.replayed_operation(operation.id, digest)? {
            Some(Receipt::Feedback(receipt)) => {
                return Ok(Planned { batch, receipt });
            },
            Some(_) => {
                return Err(MemoryError::Corrupt(CorruptFault::ReceiptShape));
            },
            None => {},
        }
        self.check_feedback(input)?;
        let feedback = RecallFeedback {
            id: RecallFeedbackId(fresh.ids[1]),
            era_id: self.era_id,
            operation_id: operation.id,
            actor: operation.actor,
            recall_case_id: input.recall_case_id,
            recall_case_revision: input.recall_case_revision,
            candidate: input.candidate,
            kind: input.kind,
            recorded_at_ms: fresh.recorded_at_ms,
        };
        batch.push(Write::PutFeedback(feedback.id, feedback));
        let subjects: Vec<RecordRef> = match input.candidate {
            Some(pin) => {
                let named: Vec<RecordRef> = vec![pin.record];
                assert(named@ =~= seq![pin.record]);
                named
            },
            None => Vec::new(),
        };
        self.insert_audit(
            &mut batch,
            fresh.ids[0],
            operation,
            AuditAction::RecallFeedbackRecorded,
            subjects,
            Vec::new(),
            None,
            fresh.recorded_at_ms,
        );
        self.insert_operation(&mut batch, operation.id, digest, Receipt::Feedback(feedback));
        Ok(Planned { batch, receipt: feedback })
    }

    /// Records what someone other than the assistant made of a recall.
    pub fn record_recall_feedback(
        &mut self,
        operation: OperationContext,
        input: NewRecallFeedback,
        request: &[u8],
    ) -> (r: MemoryResult<RecallFeedback>)
        ensures
            exists|fresh: FreshModel|
                fresh.ids.len() == 2 && #[trigger] commits(
                    old(self)@,
                    final(self)@,
                    r,
                    old(self)@.record_recall_feedback(operation, input, request@, fresh),
                ),
    {
        let fresh = Fresh::draw(2);
        let planned = self.plan_record_recall_feedback(operation, input, request, &fresh);
        let r = self.commit(planned);
        assert(commits(
            old(self)@,
            self@,
            r,
            old(self)@.record_recall_feedback(operation, input, request@, fresh@),
        ));
        r
    }

    pub fn inspect_recall_feedback(&self, id: RecallFeedbackId) -> (r: MemoryResult<Option<RecallFeedback>>)
        ensures
            r == Ok::<Option<RecallFeedback>, MemoryError>(lookup(self@.recall_feedback, id)),
    {
        match self.recall_feedback.get(&id) {
            Some(feedback) => Ok(Some(*feedback)),
            None => Ok(None),
        }
    }

    /// The earliest audit events, at most `limit` of them.
    pub fn audit_events(&self, limit: usize) -> (r: MemoryResult<Vec<AuditEvent>>)
        ensures
            shown_list(r) == Ok::<Seq<AuditEventModel>, MemoryError>(self@.audit_trail(limit)),
    {
        let keys = self.audit.keys();
        let ghost wanted = self@.audit_trail(limit);
        let mut events: Vec<AuditEvent> = Vec::new();
        let mut i: usize = 0;
        assert(views(events@) =~= wanted.take(0));
        while i < keys.len() && i < limit
            invariant
                i <= keys@.len(),
                i <= limit,
                lists(keys@, self@.audit.dom()),
                keys@ == in_order(self@.audit.dom()),
                wanted == self@.audit_trail(limit),
                views(events@) == wanted.take(i as int),
            decreases keys@.len() - i,
        {
            assert(keys@.contains(keys@[i as int]));
            if let Some(event) = self.audit.get(&keys[i]) {
                let ghost before = events@;
                events.push(event.replica());
                assert(views(events@) =~= views(before).push(event@));
                assert(views(events@) =~= wanted.take(i + 1));
            }
            i = i + 1;
        }
        assert(wanted.take(i as int) =~= wanted);
        Ok(events)
    }
}

} // verus!
