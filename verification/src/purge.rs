//! Purging: what would become unreadable, and making it so.
use vstd::prelude::*;
use crate::clock::{Fresh, FreshModel, now_ms};
use crate::context::OperationContext;
use crate::digest::{
    PURGE_DOMAIN, index_digest, index_hash, mutation_digest, mutation_digest_of, same_digest,
};
use crate::fault::{CorruptFault, InputFault, MemoryError, MemoryResult, corrupt, invalid};
use crate::ids::{ActivationTraceId, OperationId};
use crate::inspect::shown;
use crate::records::audit::{
    AuditAction, DerivedRecordRef, PurgeDependency, PurgePreview, PurgePreviewModel, PurgeReceipt,
    PurgeReceiptModel, RecordRevision, RelationSignalPurgeDependency,
};
use crate::records::evidence::{Actor, RecordRef, RecordState};
use crate::records::receipt::{Receipt, ReceiptModel};
use crate::records::relation::{ActivationTrace, RelationSignalPin};
use crate::seal::{purge_frame, purge_token_input};
use crate::staging::{Planned, commits, plans};
use crate::store::{Batch, MemoryDatabase, StoreModel};
use crate::table::{Replica, copies};

verus! {

pub const PURGE_PREVIEW_TTL_MS: i64 = 600_000;

/// The target of a purge and its dependents.
pub open spec fn purge_records(target: RecordRef, dependencies: Seq<PurgeDependency>) -> Seq<RecordRef> {
    Seq::new(
        dependencies.len() + 1,
        |i: int|
            if i == 0 {
                target
            } else {
                dependencies[i - 1].record
            },
    )
}

fn records_of_purge(target: RecordRef, dependencies: &Vec<PurgeDependency>) -> (r: Vec<RecordRef>)
    ensures
        r@ == purge_records(target, dependencies@),
{
    let ghost all = purge_records(target, dependencies@);
    let mut r: Vec<RecordRef> = Vec::new();
    r.push(target);
    assert(r@ =~= all.take(1));
    for i in 0..dependencies.len()
        invariant
            all == purge_records(target, dependencies@),
            r@ == all.take(i + 1),
    {
        r.push(dependencies[i].record);
        assert(r@ =~= all.take(i + 2));
    }
    assert(r@ =~= all);
    r
}

/// Signals as dependents of a purge.
pub open spec fn signal_dependents(pins: Seq<RelationSignalPin>) -> Seq<RelationSignalPurgeDependency> {
    Seq::new(pins.len(), |i: int| RelationSignalPurgeDependency { signal: pins[i] })
}

/// The pins of signals that a purge is about.
pub open spec fn dependent_pins(items: Seq<RelationSignalPurgeDependency>) -> Seq<RelationSignalPin> {
    Seq::new(items.len(), |i: int| items[i].signal)
}

fn list_signal_dependents(pins: &Vec<RelationSignalPin>) -> (r: Vec<RelationSignalPurgeDependency>)
    ensures
        r@ == signal_dependents(pins@),
{
    let mut r: Vec<RelationSignalPurgeDependency> = Vec::new();
    for i in 0..pins.len()
        invariant
            r@ == signal_dependents(pins@).take(i as int),
    {
        r.push(RelationSignalPurgeDependency { signal: pins[i] });
        assert(r@ =~= signal_dependents(pins@).take(i + 1));
    }
    assert(r@ =~= signal_dependents(pins@));
    r
}

fn list_dependent_pins(items: &Vec<RelationSignalPurgeDependency>) -> (r: Vec<RelationSignalPin>)
    ensures
        r@ == dependent_pins(items@),
{
    let mut r: Vec<RelationSignalPin> = Vec::new();
    for i in 0..items.len()
        invariant
            r@ == dependent_pins(items@).take(i as int),
    {
        r.push(items[i].signal);
        assert(r@ =~= dependent_pins(items@).take(i + 1));
    }
    assert(r@ =~= dependent_pins(items@));
    r
}

/// The signals and traces that an audit event names.
pub open spec fn derived_refs(signals: Seq<RelationSignalPin>, traces: Seq<ActivationTraceId>) -> Seq<DerivedRecordRef> {
    Seq::new(
        signals.len() + traces.len(),
        |i: int|
            if i < signals.len() {
                DerivedRecordRef::RelationSignal(signals[i].id)
            } else {
                DerivedRecordRef::ActivationTrace(traces[i - signals.len()])
            },
    )
}

fn list_derived_refs(signals: &Vec<RelationSignalPin>, traces: &Vec<ActivationTraceId>) -> (r: Vec<DerivedRecordRef>)
    ensures
        r@ == derived_refs(signals@, traces@),
{
    let ghost all = derived_refs(signals@, traces@);
    let mut r: Vec<DerivedRecordRef> = Vec::new();
    for i in 0..signals.len()
        invariant
            all == derived_refs(signals@, traces@),
            r@ == all.take(i as int),
    {
        r.push(DerivedRecordRef::RelationSignal(signals[i].id));
        assert(r@ =~= all.take(i + 1));
    }
    for i in 0..traces.len()
        invariant
            all == derived_refs(signals@, traces@),
            r@ == all.take(signals@.len() + i),
    {
        r.push(DerivedRecordRef::ActivationTrace(traces[i]));
        assert(r@ =~= all.take(signals@.len() + i + 1));
    }
    assert(r@ =~= all);
    r
}

fn same_dependents(a: &Vec<PurgeDependency>, b: &Vec<PurgeDependency>) -> (r: bool)
    ensures
        r == (a@ == b@),
{
    if a.len() != b.len() {
        return false;
    }
    for i in 0..a.len()
        invariant
            a@.len() == b@.len(),
            forall|j: int| 0 <= j < i ==> a@[j] == b@[j],
    {
        if a[i] != b[i] {
            return false;
        }
    }
    assert(a@ =~= b@);
    true
}

fn same_signals(a: &Vec<RelationSignalPurgeDependency>, b: &Vec<RelationSignalPurgeDependency>) -> (r: bool)
    ensures
        r == (a@ == b@),
{
    if a.len() != b.len() {
        return false;
    }
    for i in 0..a.len()
        invariant
            a@.len() == b@.len(),
            forall|j: int| 0 <= j < i ==> a@[j] == b@[j],
    {
        if a[i] != b[i] {
            return false;
        }
    }
    assert(a@ =~= b@);
    true
}

fn same_traces(a: &Vec<ActivationTraceId>, b: &Vec<ActivationTraceId>) -> (r: bool)
    ensures
        r == (a@ == b@),
{
    if a.len() != b.len() {
        return false;
    }
    for i in 0..a.len()
        invariant
            a@.len() == b@.len(),
            forall|j: int| 0 <= j < i ==> a@[j] == b@[j],
    {
        if a[i] != b[i] {
            return false;
        }
    }
    assert(a@ =~= b@);
    true
}

fn same_preview(a: &PurgePreview, b: &PurgePreview) -> (r: bool)
    ensures
        r == (a@ == b@),
{
    a.target == b.target && a.expected_revision == b.expected_revision && a.payloads_to_make_unavailable
        == b.payloads_to_make_unavailable && a.issued_at_ms == b.issued_at_ms && a.expires_at_ms
        == b.expires_at_ms && same_digest(&a.token, &b.token) && same_dependents(&a.invalidations, &b.invalidations)
        && same_signals(&a.relation_signal_invalidations, &b.relation_signal_invalidations) && same_traces(
        &a.activation_trace_invalidations,
        &b.activation_trace_invalidations,
    )
}

impl StoreModel {
    /// How many of the first `n` records have their payloads.
    pub open spec fn record_payloads(self, records: Seq<RecordRef>, n: nat) -> nat
        decreases n,
    {
        if n == 0 {
            0
        } else {
            self.record_payloads(records, (n - 1) as nat) + (if self.has_payload(records[n - 1]) {
                1nat
            } else {
                0nat
            })
        }
    }

    /// How many of the first `n` signals have their payloads.
    pub open spec fn signal_payloads(self, pins: Seq<RelationSignalPin>, n: nat) -> nat
        decreases n,
    {
        if n == 0 {
            0
        } else {
            self.signal_payloads(pins, (n - 1) as nat) + (if self.relation_signal_payloads.contains_key(
                pins[n - 1].id,
            ) {
                1nat
            } else {
                0nat
            })
        }
    }

    /// How many of the first `n` traces have their payloads.
    pub open spec fn trace_payloads(self, ids: Seq<ActivationTraceId>, n: nat) -> nat
        decreases n,
    {
        if n == 0 {
            0
        } else {
            self.trace_payloads(ids, (n - 1) as nat) + (if self.activation_trace_payloads.contains_key(ids[n - 1]) {
                1nat
            } else {
                0nat
            })
        }
    }

    /// What purging a record would make unreadable, sealed for a span of time.
    #[verifier::opaque]
    pub open spec fn purge_preview(self, target: RecordRef, issued_at_ms: i64, expires_at_ms: i64) -> MemoryResult<
        PurgePreviewModel,
    > {
        match self.standing(target) {
            Err(error) => Err(error),
            Ok((_, state, expected_revision)) => if state == RecordState::Purged {
                invalid(InputFault::AlreadyPurged)
            } else {
                match self.dependency_closure(target, true) {
                    Err(error) => Err(error),
                    Ok(invalidations) => {
                        let records = purge_records(target, invalidations);
                        match self.signals_depending_on(records) {
                            Err(error) => Err(error),
                            Ok(pins) => {
                                let traces = self.traces_depending_on(records);
                                let payloads = self.record_payloads(records, records.len()) + self.signal_payloads(
                                    pins,
                                    pins.len(),
                                ) + self.trace_payloads(traces, traces.len());
                                if payloads > u32::MAX {
                                    invalid(InputFault::PurgePayloadCount)
                                } else {
                                    Ok(
                                        self.sealed(
                                            PurgePreviewModel {
                                                target,
                                                expected_revision,
                                                payloads_to_make_unavailable: payloads as u32,
                                                invalidations,
                                                relation_signal_invalidations: signal_dependents(pins),
                                                activation_trace_invalidations: traces,
                                                issued_at_ms,
                                                expires_at_ms,
                                                token: arbitrary(),
                                            },
                                        ),
                                    )
                                }
                            },
                        }
                    },
                }
            },
        }
    }

    /// A preview with the token of this store on it.
    pub open spec fn sealed(self, preview: PurgePreviewModel) -> PurgePreviewModel {
        PurgePreviewModel {
            token: index_digest(self.digest_key@, PURGE_DOMAIN, purge_frame(self.era_id, preview)),
            ..preview
        }
    }

    /// What an operator is shown of a purge at an instant.
    pub open spec fn preview_purge(self, actor: Actor, target: RecordRef, now_ms: i64) -> MemoryResult<
        PurgePreviewModel,
    > {
        if actor != Actor::Operator {
            Err(MemoryError::Unauthorized)
        } else if now_ms + PURGE_PREVIEW_TTL_MS > i64::MAX {
            corrupt(CorruptFault::PreviewTimeOverflow)
        } else {
            self.purge_preview(target, now_ms, (now_ms + PURGE_PREVIEW_TTL_MS) as i64)
        }
    }

    /// Why a preview cannot be acted on at an instant.
    #[verifier::opaque]
    pub open spec fn preview_fault(self, preview: PurgePreviewModel, now_ms: i64) -> Option<MemoryError> {
        if now_ms < preview.issued_at_ms {
            Some(MemoryError::PurgePreviewNotYetValid { issued_at_ms: preview.issued_at_ms, now_ms })
        } else if now_ms >= preview.expires_at_ms {
            Some(MemoryError::PurgePreviewExpired { expires_at_ms: preview.expires_at_ms, now_ms })
        } else if preview.issued_at_ms + PURGE_PREVIEW_TTL_MS != preview.expires_at_ms {
            Some(MemoryError::StalePurgePreview)
        } else {
            match self.purge_preview(preview.target, preview.issued_at_ms, preview.expires_at_ms) {
                Err(error) => Some(error),
                Ok(current) => if current == preview {
                    None
                } else {
                    Some(MemoryError::StalePurgePreview)
                },
            }
        }
    }

    /// `staged` with the first `n` dependents unsupported where they were active, and
    /// unreadable in any case.
    pub open spec fn dependents_purged(
        self,
        staged: StoreModel,
        dependencies: Seq<PurgeDependency>,
        operation_id: OperationId,
        recorded_at_ms: i64,
        n: nat,
    ) -> MemoryResult<(StoreModel, Seq<RecordRevision>)>
        decreases n,
    {
        if n == 0 {
            Ok((staged, Seq::empty()))
        } else {
            match self.dependents_purged(staged, dependencies, operation_id, recorded_at_ms, (n - 1) as nat) {
                Err(error) => Err(error),
                Ok((before, revisions)) => self.dependent_purged(
                    before,
                    revisions,
                    dependencies[n - 1],
                    operation_id,
                    recorded_at_ms,
                ),
            }
        }
    }

    /// `staged` with one dependent unsupported where it was active, and unreadable.
    #[verifier::opaque]
    pub open spec fn dependent_purged(
        self,
        staged: StoreModel,
        revisions: Seq<RecordRevision>,
        dependency: PurgeDependency,
        operation_id: OperationId,
        recorded_at_ms: i64,
    ) -> MemoryResult<(StoreModel, Seq<RecordRevision>)> {
        let record = dependency.record;
        match self.standing(record) {
            Err(error) => Err(error),
            Ok((_, state, actual)) => if actual != dependency.expected_revision {
                Err(
                    MemoryError::RevisionConflict { expected: dependency.expected_revision, actual },
                )
            } else if state != RecordState::Active {
                Ok((staged.unindexed(self, record).without_payload(record), revisions))
            } else {
                match self.appended(
                    staged,
                    record,
                    dependency.expected_revision,
                    RecordState::Unsupported,
                    operation_id,
                    recorded_at_ms,
                ) {
                    Err(error) => Err(error),
                    Ok((after, revision)) => Ok(
                        (after.unindexed(self, record).without_payload(record), revisions.push(revision)),
                    ),
                }
            },
        }
    }

    /// Everything that a preview names is made unreadable.
    #[verifier::opaque]
    pub open spec fn purged(
        self,
        operation: OperationContext,
        digest: [u8; 32],
        preview: PurgePreviewModel,
        fresh: FreshModel,
    ) -> MemoryResult<(StoreModel, PurgeReceiptModel)> {
        match self.appended(
            self,
            preview.target,
            preview.expected_revision,
            RecordState::Purged,
            operation.id,
            fresh.recorded_at_ms,
        ) {
            Err(error) => Err(error),
            Ok((moved, target)) => match self.dependents_purged(
                moved.unindexed(self, preview.target).without_payload(preview.target),
                preview.invalidations,
                operation.id,
                fresh.recorded_at_ms,
                preview.invalidations.len(),
            ) {
                Err(error) => Err(error),
                Ok((undermined, invalidated)) => {
                    let pins = dependent_pins(preview.relation_signal_invalidations);
                    match self.signals_purged(
                        undermined,
                        pins,
                        pins.len(),
                        operation.id,
                        fresh.recorded_at_ms,
                    ) {
                        Err(error) => Err(error),
                        Ok((silenced, signals)) => {
                            let traces = preview.activation_trace_invalidations;
                            let receipt = PurgeReceiptModel {
                                target,
                                invalidated,
                                purged_relation_signals: signals,
                                purged_activation_traces: traces,
                                payloads_made_unavailable: preview.payloads_to_make_unavailable,
                            };
                            Ok(
                                (
                                    silenced.without_traces(traces, traces.len()).audited(
                                        self.audit_event(
                                            fresh.ids[0],
                                            operation,
                                            AuditAction::PurgeCommitted,
                                            purge_records(preview.target, preview.invalidations),
                                            derived_refs(signals, traces),
                                            None,
                                            fresh.recorded_at_ms,
                                        ),
                                    ).remembered(operation.id, digest, ReceiptModel::Purge(receipt)),
                                    receipt,
                                ),
                            )
                        },
                    }
                },
            },
        }
    }

    /// Acting on a preview at an instant.
    pub open spec fn commit_purge(
        self,
        operation: OperationContext,
        preview: PurgePreviewModel,
        request: Seq<u8>,
        now_ms: i64,
        fresh: FreshModel,
    ) -> MemoryResult<(StoreModel, PurgeReceiptModel)> {
        let digest = mutation_digest_of(self.digest_key@, "commit_purge"@, operation.actor, request);
        if operation.actor != Actor::Operator {
            Err(MemoryError::Unauthorized)
        } else {
            match self.replay(operation.id, digest) {
                Err(error) => Err(error),
                Ok(Some(ReceiptModel::Purge(receipt))) => Ok((self, receipt)),
                Ok(Some(_)) => corrupt(CorruptFault::ReceiptShape),
                Ok(None) => match self.preview_fault(preview, now_ms) {
                    Some(error) => Err(error),
                    None => self.purged(operation, digest, preview, fresh),
                },
            }
        }
    }
}

proof fn dependents_refusal_persists(
    s: StoreModel,
    staged: StoreModel,
    dependencies: Seq<PurgeDependency>,
    operation_id: OperationId,
    recorded_at_ms: i64,
    n: nat,
    m: nat,
)
    requires
        n <= m,
        s.dependents_purged(staged, dependencies, operation_id, recorded_at_ms, n) is Err,
    ensures
        s.dependents_purged(staged, dependencies, operation_id, recorded_at_ms, m) == s.dependents_purged(
            staged,
            dependencies,
            operation_id,
            recorded_at_ms,
            n,
        ),
    decreases m,
{
    if n < m {
        dependents_refusal_persists(s, staged, dependencies, operation_id, recorded_at_ms, n, (m - 1) as nat);
    }
}

/// A seal does not depend on the token that a preview carries already.
pub proof fn seals_ignore_tokens(s: StoreModel, preview: PurgePreviewModel, token: [u8; 32])
    ensures
        s.sealed(PurgePreviewModel { token, ..preview }) == s.sealed(preview),
{
    reveal(purge_frame);
}

/// A preview that is acted on carries the token of this store for exactly what it says.
pub proof fn accepted_previews_are_sealed(s: StoreModel, preview: PurgePreviewModel, now_ms: i64)
    requires
        s.preview_fault(preview, now_ms) is None,
    ensures
        s.sealed(preview) == preview,
        preview.issued_at_ms <= now_ms < preview.expires_at_ms,
        preview.expires_at_ms == preview.issued_at_ms + PURGE_PREVIEW_TTL_MS,
{
    reveal(StoreModel::preview_fault);
    reveal(StoreModel::purge_preview);
    seals_ignore_tokens(s, preview, arbitrary());
}

/// What an operator was shown can be acted on as long as the store stands as it was and
/// the preview has not expired.
pub proof fn previews_hold_while_nothing_changes(s: StoreModel, target: RecordRef, shown_at_ms: i64, now_ms: i64)
    requires
        s.preview_purge(Actor::Operator, target, shown_at_ms) is Ok,
        shown_at_ms <= now_ms < shown_at_ms + PURGE_PREVIEW_TTL_MS,
    ensures
        s.preview_fault(s.preview_purge(Actor::Operator, target, shown_at_ms)->Ok_0, now_ms) is None,
{
    reveal(StoreModel::preview_fault);
    reveal(StoreModel::purge_preview);
}

impl MemoryDatabase {
    fn count_record_payloads(&self, records: &Vec<RecordRef>) -> (r: u64)
        requires
            records@.len() <= usize::MAX,
        ensures
            r == self@.record_payloads(records@, records@.len()),
    {
        let mut count: u64 = 0;
        for i in 0..records.len()
            invariant
                count == self@.record_payloads(records@, i as nat),
                count <= i,
        {
            if self.has_payload(records[i]) {
                count = count + 1;
            }
        }
        count
    }

    fn count_signal_payloads(&self, pins: &Vec<RelationSignalPin>) -> (r: u64)
        ensures
            r == self@.signal_payloads(pins@, pins@.len()),
    {
        let mut count: u64 = 0;
        for i in 0..pins.len()
            invariant
                count == self@.signal_payloads(pins@, i as nat),
                count <= i,
        {
            if self.relation_signal_payloads.contains(&pins[i].id) {
                count = count + 1;
            }
        }
        count
    }

    fn count_trace_payloads(&self, ids: &Vec<ActivationTraceId>) -> (r: u64)
        ensures
            r == self@.trace_payloads(ids@, ids@.len()),
    {
        let mut count: u64 = 0;
        for i in 0..ids.len()
            invariant
                count == self@.trace_payloads(ids@, i as nat),
                count <= i,
        {
            if self.activation_trace_payloads.contains(&ids[i]) {
                count = count + 1;
            }
        }
        count
    }

    fn build_purge_preview_at(&self, target: RecordRef, issued_at_ms: i64, expires_at_ms: i64) -> (r: MemoryResult<
        PurgePreview,
    >)
        ensures
            shown(r) == self@.purge_preview(target, issued_at_ms, expires_at_ms),
    {
        reveal(StoreModel::purge_preview);
        let standing = self.record_scope_state_revision(target)?;
        if standing.1 == RecordState::Purged {
            return Err(MemoryError::InvalidInput(InputFault::AlreadyPurged));
        }
        let invalidations = self.dependency_closure(target, true)?;
        let records = records_of_purge(target, &invalidations);
        let pins = self.relation_signals_depending_on_records(&records)?;
        let traces = self.activation_traces_depending_on_records(&records);
        let payloads: u128 = self.count_record_payloads(&records) as u128 + self.count_signal_payloads(&pins) as u128
            + self.count_trace_payloads(&traces) as u128;
        if payloads > u32::MAX as u128 {
            return Err(MemoryError::InvalidInput(InputFault::PurgePayloadCount));
        }
        let unsealed = PurgePreview {
            target,
            expected_revision: standing.2,
            payloads_to_make_unavailable: payloads as u32,
            invalidations,
            relation_signal_invalidations: list_signal_dependents(&pins),
            activation_trace_invalidations: traces,
            issued_at_ms,
            expires_at_ms,
            token: [0u8; 32],
        };
        proof {
            seals_ignore_tokens(self@, unsealed@, arbitrary());
        }
        let input = purge_token_input(self.era_id, &unsealed);
        let token = index_hash(&self.digest_key, PURGE_DOMAIN, input.as_slice());
        Ok(PurgePreview { token, ..unsealed })
    }

    /// What an operator is shown of a purge at a given instant.
    pub fn preview_purge_at(&self, actor: Actor, target: RecordRef, now_ms: i64) -> (r: MemoryResult<PurgePreview>)
        ensures
            shown(r) == self@.preview_purge(actor, target, now_ms),
    {
        if actor != Actor::Operator {
            return Err(MemoryError::Unauthorized);
        }
        match now_ms.checked_add(PURGE_PREVIEW_TTL_MS) {
            Some(expires_at_ms) => self.build_purge_preview_at(target, now_ms, expires_at_ms),
            None => Err(MemoryError::Corrupt(CorruptFault::PreviewTimeOverflow)),
        }
    }

    /// Shows an operator what purging a record would make unreadable.
    pub fn preview_purge(&self, actor: Actor, target: RecordRef) -> (r: MemoryResult<PurgePreview>)
        ensures
            exists|now: i64| now >= 0 && shown(r) == #[trigger] self@.preview_purge(actor, target, now),
    {
        let now: i64 = now_ms();
        let r = self.preview_purge_at(actor, target, now);
        assert(shown(r) == self@.preview_purge(actor, target, now));
        r
    }

    fn check_preview(&self, preview: &PurgePreview, now: i64) -> (r: MemoryResult<()>)
        ensures
            r == (match self@.preview_fault(preview@, now) {
                Some(error) => Err(error),
                None => Ok(()),
            }),
    {
        reveal(StoreModel::preview_fault);
        if now < preview.issued_at_ms {
            return Err(
                MemoryError::PurgePreviewNotYetValid { issued_at_ms: preview.issued_at_ms, now_ms: now },
            );
        }
        if now >= preview.expires_at_ms {
            return Err(
                MemoryError::PurgePreviewExpired { expires_at_ms: preview.expires_at_ms, now_ms: now },
            );
        }
        let lasting = match preview.issued_at_ms.checked_add(PURGE_PREVIEW_TTL_MS) {
            Some(expiry) => expiry == preview.expires_at_ms,
            None => false,
        };
        if !lasting {
            return Err(MemoryError::StalePurgePreview);
        }
        let current = self.build_purge_preview_at(
            preview.target,
            preview.issued_at_ms,
            preview.expires_at_ms,
        )?;
        if !same_preview(&current, preview) {
            return Err(MemoryError::StalePurgePreview);
        }
        Ok(())
    }

    fn purge_dependent(
        &self,
        batch: &mut Batch,
        revisions: &mut Vec<RecordRevision>,
        dependency: PurgeDependency,
        operation_id: OperationId,
        recorded_at_ms: i64,
    ) -> (r: MemoryResult<()>)
        ensures
            match (
                r,
                self@.dependent_purged(
                    self@.after(old(batch)@),
                    old(revisions)@,
                    dependency,
                    operation_id,
                    recorded_at_ms,
                ),
            ) {
                (Ok(_), Ok((after, owed))) => self@.after(final(batch)@) == after && final(revisions)@ == owed,
                (Err(error), Err(refusal)) => error == refusal,
                _ => false,
            },
    {
        reveal(StoreModel::dependent_purged);
        let standing = self.record_scope_state_revision(dependency.record)?;
        if standing.2 != dependency.expected_revision {
            return Err(
                MemoryError::RevisionConflict {
                    expected: dependency.expected_revision,
                    actual: standing.2,
                },
            );
        }
        if standing.1 == RecordState::Active {
            let revision = self.append_state_revision(
                batch,
                dependency.record,
                dependency.expected_revision,
                RecordState::Unsupported,
                operation_id,
                recorded_at_ms,
            )?;
            revisions.push(revision);
        }
        self.remove_lexical_document(batch, dependency.record);
        self.remove_record_payload(batch, dependency.record);
        Ok(())
    }

    fn purge_dependents(
        &self,
        batch: &mut Batch,
        dependencies: &Vec<PurgeDependency>,
        operation_id: OperationId,
        recorded_at_ms: i64,
    ) -> (r: MemoryResult<Vec<RecordRevision>>)
        ensures
            match (
                r,
                self@.dependents_purged(
                    self@.after(old(batch)@),
                    dependencies@,
                    operation_id,
                    recorded_at_ms,
                    dependencies@.len(),
                ),
            ) {
                (Ok(revisions), Ok((after, owed))) => self@.after(final(batch)@) == after && revisions@ == owed,
                (Err(error), Err(refusal)) => error == refusal,
                _ => false,
            },
    {
        let ghost start = self@.after(batch@);
        let mut revisions: Vec<RecordRevision> = Vec::new();
        for i in 0..dependencies.len()
            invariant
                start == self@.after(old(batch)@),
                self@.dependents_purged(start, dependencies@, operation_id, recorded_at_ms, i as nat) == Ok::<
                    (StoreModel, Seq<RecordRevision>),
                    MemoryError,
                >((self@.after(batch@), revisions@)),
        {
            match self.purge_dependent(batch, &mut revisions, dependencies[i], operation_id, recorded_at_ms) {
                Ok(_) => {},
                Err(error) => {
                    proof {
                        dependents_refusal_persists(
                            self@,
                            start,
                            dependencies@,
                            operation_id,
                            recorded_at_ms,
                            (i + 1) as nat,
                            dependencies@.len(),
                        );
                    }
                    return Err(error);
                },
            }
        }
        Ok(revisions)
    }

    fn plan_purge(&self, operation: OperationContext, digest: [u8; 32], preview: &PurgePreview, fresh: &Fresh) -> (r:
        MemoryResult<Planned<PurgeReceipt>>)
        requires
            fresh.ids@.len() == 1,
        ensures
            plans(self@, r, self@.purged(operation, digest, preview@, fresh@)),
    {
        reveal(StoreModel::purged);
        let mut batch = Batch::new();
        let target = self.append_state_revision(
            &mut batch,
            preview.target,
            preview.expected_revision,
            RecordState::Purged,
            operation.id,
            fresh.recorded_at_ms,
        )?;
        self.remove_lexical_document(&mut batch, preview.target);
        self.remove_record_payload(&mut batch, preview.target);
        let invalidated = self.purge_dependents(
            &mut batch,
            &preview.invalidations,
            operation.id,
            fresh.recorded_at_ms,
        )?;
        let pins = list_dependent_pins(&preview.relation_signal_invalidations);
        let signals = self.purge_signals(&mut batch, &pins, operation.id, fresh.recorded_at_ms)?;
        self.drop_traces(&mut batch, &preview.activation_trace_invalidations);
        let derived = list_derived_refs(&signals, &preview.activation_trace_invalidations);
        let receipt = PurgeReceipt {
            target,
            invalidated,
            purged_relation_signals: signals,
            purged_activation_traces: copies(&preview.activation_trace_invalidations),
            payloads_made_unavailable: preview.payloads_to_make_unavailable,
        };
        self.insert_audit(
            &mut batch,
            fresh.ids[0],
            operation,
            AuditAction::PurgeCommitted,
            records_of_purge(preview.target, &preview.invalidations),
            derived,
            None,
            fresh.recorded_at_ms,
        );
        self.insert_operation(&mut batch, operation.id, digest, Receipt::Purge(receipt.replica()));
        Ok(Planned { batch, receipt })
    }

    /// What acting on a preview would do, with the instant at which the preview is held
    /// against the clock. `request` encodes the preview.
    pub fn plan_commit_purge(
        &self,
        operation: OperationContext,
        preview: &PurgePreview,
        request: &[u8],
        now: i64,
        fresh: &Fresh,
    ) -> (r: MemoryResult<Planned<PurgeReceipt>>)
        requires
            fresh.ids@.len() == 1,
        ensures
            plans(self@, r, self@.commit_purge(operation, preview@, request@, now, fresh@)),
    {
        if operation.actor != Actor::Operator {
            return Err(MemoryError::Unauthorized);
        }
        let digest = mutation_digest(&self.digest_key, "commit_purge", operation.actor, request);
        match self.replayed_operation(operation.id, digest)? {
            Some(Receipt::Purge(receipt)) => {
                return Ok(Planned { batch: Batch::new(), receipt });
            },
            Some(_) => {
                return Err(MemoryError::Corrupt(CorruptFault::ReceiptShape));
            },
            None => {},
        }
        self.check_preview(preview, now)?;
        self.plan_purge(operation, digest, preview, fresh)
    }

    /// Makes everything that a preview names unreadable, if the preview still says what
    /// would become of it.
    pub fn commit_purge(&mut self, operation: OperationContext, preview: PurgePreview, request: &[u8]) -> (r:
        MemoryResult<PurgeReceipt>)
        ensures
            exists|now: i64, fresh: FreshModel|
                now >= 0 && fresh.ids.len() == 1 && #[trigger] commits(
                    old(self)@,
                    final(self)@,
                    r,
                    old(self)@.commit_purge(operation, preview@, request@, now, fresh),
                ),
    {
        let now: i64 = now_ms();
        let fresh = Fresh::draw(1);
        let planned = self.plan_commit_purge(operation, &preview, request, now, &fresh);
        let r = self.commit(planned);
        assert(commits(
            old(self)@,
            self@,
            r,
            old(self)@.commit_purge(operation, preview@, request@, now, fresh@),
        ));
        r
    }
}

} // verus!
