//! What is derived from records: relation signals and activation traces, by what
//! they rest on.
use vstd::prelude::*;
use crate::fault::{CorruptFault, MemoryError, MemoryResult, SignalIndex, corrupt};
use crate::ids::{ActivationTraceId, OperationId, RelationSignalId, Ulid};
use crate::inspect::{lookup, revision_of};
use crate::keys::{
    OwnerIndexKey, RecordIndexKey, RevisionKey, storage_rank_fits, storage_rank_is_injective,
};
use crate::order::{Keyed, Ranked, in_order, in_order_is_unique, increasing};
use crate::records::audit::DerivedRecordRef;
use crate::records::evidence::{RecordRef, RecordState};
use crate::records::relation::{ActivationTrace, RelationSignalPin, RelationSignalRevisionHeader};
use crate::staging::steps;
use crate::store::{Batch, MemoryDatabase, StoreModel, Write, WriteModel};
use crate::table::Table;

verus! {

/// The identifiers that owner keys name.
pub open spec fn ids_named(keys: Seq<OwnerIndexKey>) -> Seq<Ulid> {
    Seq::new(keys.len(), |i: int| keys[i].id)
}

/// The keys of an index that belong to an owner.
pub open spec fn owner_keys(index: Map<OwnerIndexKey, ()>, owner: Ulid) -> Set<OwnerIndexKey> {
    Set::new(|k: OwnerIndexKey| index.contains_key(k) && k.owner == owner)
}

/// What is filed under an owner, in order.
pub open spec fn owned(index: Map<OwnerIndexKey, ()>, owner: Ulid) -> Seq<Ulid> {
    ids_named(in_order(owner_keys(index, owner)))
}

/// Everything that is filed under one of some records.
pub open spec fn filed_under(index: Map<RecordIndexKey, ()>, records: Seq<RecordRef>) -> Set<Ulid> {
    Set::new(
        |id: Ulid| exists|i: int| 0 <= i < records.len() && index.contains_key(
            RecordIndexKey { record: #[trigger] records[i], id },
        ),
    )
}

impl StoreModel {
    /// The current header of a signal that an index leads to.
    #[verifier::opaque]
    pub open spec fn signal_head(self, index: SignalIndex, id: RelationSignalId) -> MemoryResult<
        RelationSignalRevisionHeader,
    > {
        match lookup(self.relation_signal_heads, id) {
            None => corrupt(CorruptFault::SignalMissing(index, id)),
            Some(revision) => match lookup(self.relation_signals, revision_of(id.0, revision)) {
                None => corrupt(CorruptFault::SignalRevisionMissing(id, revision)),
                Some(header) => Ok(header),
            },
        }
    }

    /// The current revision of a signal.
    pub open spec fn signal_revision(self, id: RelationSignalId) -> u64 {
        match lookup(self.relation_signal_heads, id) {
            Some(revision) => revision,
            None => 0,
        }
    }

    /// The signals among the first `n` of an index that were not purged, at their current
    /// revisions.
    pub open spec fn live_signals(self, index: SignalIndex, ids: Seq<Ulid>, n: nat) -> MemoryResult<Seq<RelationSignalPin>>
        decreases n,
    {
        if n == 0 {
            Ok(Seq::empty())
        } else {
            match self.live_signals(index, ids, (n - 1) as nat) {
                Err(error) => Err(error),
                Ok(pins) => {
                    let id = RelationSignalId(ids[n - 1]);
                    match self.signal_head(index, id) {
                        Err(error) => Err(error),
                        Ok(header) => if header.state == RecordState::Purged {
                            Ok(pins)
                        } else {
                            Ok(pins.push(RelationSignalPin { id, revision: self.signal_revision(id) }))
                        },
                    }
                },
            }
        }
    }

    /// The traces among the first `n` whose payloads are there.
    pub open spec fn live_traces(self, ids: Seq<Ulid>, n: nat) -> Seq<ActivationTraceId>
        decreases n,
    {
        if n == 0 {
            Seq::empty()
        } else {
            let before = self.live_traces(ids, (n - 1) as nat);
            let id = ActivationTraceId(ids[n - 1]);
            if self.activation_trace_payloads.contains_key(id) {
                before.push(id)
            } else {
                before
            }
        }
    }

    /// `staged` with a further revision of a signal that stands at `pin` in this store.
    #[verifier::opaque]
    pub open spec fn signal_appended(
        self,
        staged: StoreModel,
        pin: RelationSignalPin,
        state: RecordState,
        operation_id: OperationId,
        recorded_at_ms: i64,
    ) -> MemoryResult<(StoreModel, RelationSignalPin)> {
        match lookup(self.relation_signal_heads, pin.id) {
            None => corrupt(CorruptFault::SignalHeadMissing(pin.id)),
            Some(actual) => if actual != pin.revision {
                Err(MemoryError::RevisionConflict { expected: pin.revision, actual })
            } else {
                match lookup(self.relation_signals, revision_of(pin.id.0, pin.revision)) {
                    None => corrupt(CorruptFault::SignalRevisionMissing(pin.id, pin.revision)),
                    Some(current) => if pin.revision == u64::MAX {
                        corrupt(CorruptFault::SignalRevisionOverflow)
                    } else {
                        let revision = (pin.revision + 1) as u64;
                        let written = staged.put(
                            WriteModel::PutSignal(
                                revision_of(pin.id.0, revision),
                                RelationSignalRevisionHeader {
                                    revision,
                                    previous_revision: Some(pin.revision),
                                    state,
                                    recorded_at_ms,
                                    operation_id,
                                    ..current
                                },
                            ),
                        ).put(WriteModel::PutSignalHead(pin.id, revision));
                        Ok(
                            (
                                if state == RecordState::Purged {
                                    written.put(WriteModel::DropSignalPayload(pin.id))
                                } else {
                                    written
                                },
                                RelationSignalPin { id: pin.id, revision },
                            ),
                        )
                    },
                }
            },
        }
    }

    /// `staged` with the first `n` signals purged.
    pub open spec fn signals_purged(
        self,
        staged: StoreModel,
        pins: Seq<RelationSignalPin>,
        n: nat,
        operation_id: OperationId,
        recorded_at_ms: i64,
    ) -> MemoryResult<(StoreModel, Seq<RelationSignalPin>)>
        decreases n,
    {
        if n == 0 {
            Ok((staged, Seq::empty()))
        } else {
            match self.signals_purged(staged, pins, (n - 1) as nat, operation_id, recorded_at_ms) {
                Err(error) => Err(error),
                Ok((before, done)) => match self.signal_appended(
                    before,
                    pins[n - 1],
                    RecordState::Purged,
                    operation_id,
                    recorded_at_ms,
                ) {
                    Err(error) => Err(error),
                    Ok((after, pin)) => Ok((after, done.push(pin))),
                },
            }
        }
    }

    /// Without the payloads of the first `n` traces.
    pub open spec fn without_traces(self, ids: Seq<ActivationTraceId>, n: nat) -> StoreModel
        decreases n,
    {
        if n == 0 {
            self
        } else {
            self.without_traces(ids, (n - 1) as nat).put(WriteModel::DropTracePayload(ids[n - 1]))
        }
    }

    /// The signals that rest on one of some records and were not purged.
    pub open spec fn signals_depending_on(self, records: Seq<RecordRef>) -> MemoryResult<
        Seq<RelationSignalPin>,
    > {
        let ids = in_order(filed_under(self.relation_signals_by_record, records));
        self.live_signals(SignalIndex::Dependency, ids, ids.len())
    }

    /// The traces that rest on one of some records and whose payloads are there.
    pub open spec fn traces_depending_on(self, records: Seq<RecordRef>) -> Seq<ActivationTraceId> {
        let ids = in_order(filed_under(self.activation_traces_by_record, records));
        self.live_traces(ids, ids.len())
    }
}

/// The signals and traces that a change of a definition is about.
pub open spec fn derived_subjects_of(
    first: DerivedRecordRef,
    signals: Seq<RelationSignalPin>,
    traces: Seq<ActivationTraceId>,
) -> Seq<DerivedRecordRef> {
    Seq::new(
        1 + signals.len() + traces.len(),
        |i: int|
            if i == 0 {
                first
            } else if i <= signals.len() {
                DerivedRecordRef::RelationSignal(signals[i - 1].id)
            } else {
                DerivedRecordRef::ActivationTrace(traces[i - 1 - signals.len()])
            },
    )
}

pub fn collect_derived_subjects(
    first: DerivedRecordRef,
    signals: &Vec<RelationSignalPin>,
    traces: &Vec<ActivationTraceId>,
) -> (r: Vec<DerivedRecordRef>)
    ensures
        r@ == derived_subjects_of(first, signals@, traces@),
{
    let ghost all = derived_subjects_of(first, signals@, traces@);
    let mut r: Vec<DerivedRecordRef> = Vec::new();
    r.push(first);
    assert(r@ =~= all.take(1));
    for i in 0..signals.len()
        invariant
            all == derived_subjects_of(first, signals@, traces@),
            r@ == all.take(1 + i),
    {
        r.push(DerivedRecordRef::RelationSignal(signals[i].id));
        assert(r@ =~= all.take(2 + i));
    }
    for i in 0..traces.len()
        invariant
            all == derived_subjects_of(first, signals@, traces@),
            r@ == all.take(1 + signals@.len() + i),
    {
        r.push(DerivedRecordRef::ActivationTrace(traces[i]));
        assert(r@ =~= all.take(2 + signals@.len() + i));
    }
    assert(all.take(all.len() as int) =~= all);
    r
}

proof fn live_signals_refusal_persists(s: StoreModel, index: SignalIndex, ids: Seq<Ulid>, n: nat, m: nat)
    requires
        n <= m,
        s.live_signals(index, ids, n) is Err,
    ensures
        s.live_signals(index, ids, m) == s.live_signals(index, ids, n),
    decreases m,
{
    if n < m {
        live_signals_refusal_persists(s, index, ids, n, (m - 1) as nat);
    }
}

proof fn signals_purged_refusal_persists(
    s: StoreModel,
    staged: StoreModel,
    pins: Seq<RelationSignalPin>,
    n: nat,
    m: nat,
    operation_id: OperationId,
    recorded_at_ms: i64,
)
    requires
        n <= m,
        s.signals_purged(staged, pins, n, operation_id, recorded_at_ms) is Err,
    ensures
        s.signals_purged(staged, pins, m, operation_id, recorded_at_ms) == s.signals_purged(
            staged,
            pins,
            n,
            operation_id,
            recorded_at_ms,
        ),
    decreases m,
{
    if n < m {
        signals_purged_refusal_persists(s, staged, pins, n, (m - 1) as nat, operation_id, recorded_at_ms);
    }
}

/// What is filed under an owner in an index.
pub(crate) fn owned_ids(index: &Table<OwnerIndexKey, ()>, owner: Ulid) -> (r: Vec<Ulid>)
    ensures
        r@ == owned(index@, owner),
{
    let low = OwnerIndexKey { owner, id: Ulid(0) };
    let high = OwnerIndexKey { owner, id: Ulid(u128::MAX) };
    let keys = index.scan(&low, &high);
    proof {
        let range = Set::new(
            |k: OwnerIndexKey| index@.contains_key(k) && low.rank() <= k.rank() <= high.rank(),
        );
        assert(range =~= owner_keys(index@, owner));
    }
    let mut r: Vec<Ulid> = Vec::new();
    for i in 0..keys.len()
        invariant
            r@ == ids_named(keys@.take(i as int)),
    {
        r.push(keys[i].id);
        assert(r@ =~= ids_named(keys@.take(i + 1)));
    }
    assert(keys@.take(keys@.len() as int) =~= keys@);
    r
}

/// Everything that is filed under one of some records in an index, in order.
pub(crate) fn filed_ids(index: &Table<RecordIndexKey, ()>, records: &Vec<RecordRef>) -> (r: Vec<Ulid>)
    ensures
        r@ == in_order(filed_under(index@, records@)),
{
    let mut ids: Ranked<Ulid> = Ranked::new();
    for i in 0..records.len()
        invariant
            increasing(ids@),
            forall|id: Ulid| #[trigger] ids@.contains(id) <==> filed_under(index@, records@.take(i as int)).contains(id),
    {
        let record = records[i];
        let low = RecordIndexKey { record, id: Ulid(0) };
        let high = RecordIndexKey { record, id: Ulid(u128::MAX) };
        let keys = index.scan(&low, &high);
        let ghost before = ids@;
        proof {
            assert forall|k: RecordIndexKey| #[trigger] keys@.contains(k) <==> index@.contains_key(k) && k.record
                == record by {
                if index@.contains_key(k) && low.rank() <= k.rank() <= high.rank() {
                    storage_rank_fits(k.record);
                    storage_rank_is_injective(k.record, record);
                }
            }
        }
        for j in 0..keys.len()
            invariant
                increasing(ids@),
                forall|id: Ulid| #[trigger]
                    ids@.contains(id) <==> before.contains(id) || exists|p: int|
                        0 <= p < j && (#[trigger] keys@[p]).id == id,
        {
            let ghost held = ids@;
            ids.insert(keys[j].id);
            proof {
                assert forall|id: Ulid| #[trigger] ids@.contains(id) <==> before.contains(id) || exists|p: int|
                    0 <= p < j + 1 && (#[trigger] keys@[p]).id == id by {
                    assert(held.contains(id) <==> before.contains(id) || exists|p: int|
                        0 <= p < j && (#[trigger] keys@[p]).id == id);
                    if id == keys@[j as int].id {
                        assert(0 <= j < j + 1 && keys@[j as int].id == id);
                    }
                }
            }
        }
        proof {
            let now = records@.take(i + 1);
            let was = records@.take(i as int);
            assert forall|id: Ulid| #[trigger] ids@.contains(id) <==> filed_under(index@, now).contains(id) by {
                let k = RecordIndexKey { record, id };
                assert(before.contains(id) <==> filed_under(index@, was).contains(id));
                if filed_under(index@, was).contains(id) {
                    let q = choose|q: int| 0 <= q < was.len() && index@.contains_key(
                        RecordIndexKey { record: #[trigger] was[q], id },
                    );
                    assert(now[q] == was[q]);
                }
                if exists|p: int| 0 <= p < keys@.len() && (#[trigger] keys@[p]).id == id {
                    let p = choose|p: int| 0 <= p < keys@.len() && (#[trigger] keys@[p]).id == id;
                    assert(keys@.contains(keys@[p]));
                    assert(keys@[p] == k);
                    assert(now[i as int] == record);
                }
                if filed_under(index@, now).contains(id) {
                    let q = choose|q: int| 0 <= q < now.len() && index@.contains_key(
                        RecordIndexKey { record: #[trigger] now[q], id },
                    );
                    if q < i {
                        assert(was[q] == now[q]);
                    } else {
                        assert(keys@.contains(k));
                        let p = choose|p: int| 0 <= p < keys@.len() && keys@[p] == k;
                        assert(keys@[p].id == id);
                    }
                }
            }
        }
    }
    assert(records@.take(records@.len() as int) =~= records@);
    let r = ids.into_vec();
    proof {
        in_order_is_unique(r@, filed_under(index@, records@));
    }
    r
}

impl MemoryDatabase {
    pub(crate) fn signal_head(&self, index: SignalIndex, id: RelationSignalId) -> (r: MemoryResult<
        RelationSignalRevisionHeader,
    >)
        ensures
            r == self@.signal_head(index, id),
            r is Ok ==> self@.relation_signal_heads.contains_key(id),
    {
        reveal(StoreModel::signal_head);
        let revision: u64 = match self.relation_signal_heads.get(&id) {
            Some(revision) => *revision,
            None => return Err(MemoryError::Corrupt(CorruptFault::SignalMissing(index, id))),
        };
        match self.relation_signals.get(&RevisionKey { id: id.0, revision }) {
            Some(header) => Ok(*header),
            None => Err(MemoryError::Corrupt(CorruptFault::SignalRevisionMissing(id, revision))),
        }
    }

    pub(crate) fn live_signals(&self, index: SignalIndex, ids: &Vec<Ulid>) -> (r: MemoryResult<Vec<RelationSignalPin>>)
        ensures
            match (r, self@.live_signals(index, ids@, ids@.len())) {
                (Ok(pins), Ok(owed)) => pins@ == owed,
                (Err(error), Err(refusal)) => error == refusal,
                _ => false,
            },
    {
        let mut pins: Vec<RelationSignalPin> = Vec::new();
        for i in 0..ids.len()
            invariant
                self@.live_signals(index, ids@, i as nat) == Ok::<Seq<RelationSignalPin>, MemoryError>(pins@),
        {
            let id = RelationSignalId(ids[i]);
            match self.signal_head(index, id) {
                Err(error) => {
                    proof {
                        live_signals_refusal_persists(self@, index, ids@, (i + 1) as nat, ids@.len());
                    }
                    return Err(error);
                },
                Ok(header) => {
                    if header.state != RecordState::Purged {
                        let revision: u64 = match self.relation_signal_heads.get(&id) {
                            Some(revision) => *revision,
                            None => 0,
                        };
                        pins.push(RelationSignalPin { id, revision });
                    }
                },
            }
        }
        Ok(pins)
    }

    pub(crate) fn live_traces(&self, ids: &Vec<Ulid>) -> (r: Vec<ActivationTraceId>)
        ensures
            r@ == self@.live_traces(ids@, ids@.len()),
    {
        let mut traces: Vec<ActivationTraceId> = Vec::new();
        for i in 0..ids.len()
            invariant
                traces@ == self@.live_traces(ids@, i as nat),
        {
            let id = ActivationTraceId(ids[i]);
            if self.activation_trace_payloads.contains(&id) {
                traces.push(id);
            }
        }
        traces
    }

    pub(crate) fn relation_signals_depending_on_records(&self, records: &Vec<RecordRef>) -> (r: MemoryResult<
        Vec<RelationSignalPin>,
    >)
        ensures
            match (r, self@.signals_depending_on(records@)) {
                (Ok(pins), Ok(owed)) => pins@ == owed,
                (Err(error), Err(refusal)) => error == refusal,
                _ => false,
            },
    {
        let ids = filed_ids(&self.relation_signals_by_record, records);
        self.live_signals(SignalIndex::Dependency, &ids)
    }

    pub(crate) fn activation_traces_depending_on_records(&self, records: &Vec<RecordRef>) -> (r: Vec<
        ActivationTraceId,
    >)
        ensures
            r@ == self@.traces_depending_on(records@),
    {
        let ids = filed_ids(&self.activation_traces_by_record, records);
        self.live_traces(&ids)
    }

    pub(crate) fn append_relation_signal_state_revision(
        &self,
        batch: &mut Batch,
        pin: RelationSignalPin,
        state: RecordState,
        operation_id: OperationId,
        recorded_at_ms: i64,
    ) -> (r: MemoryResult<RelationSignalPin>)
        ensures
            steps(
                self@,
                final(batch)@,
                r,
                self@.signal_appended(self@.after(old(batch)@), pin, state, operation_id, recorded_at_ms),
            ),
    {
        reveal(StoreModel::signal_appended);
        let actual: u64 = match self.relation_signal_heads.get(&pin.id) {
            Some(actual) => *actual,
            None => return Err(MemoryError::Corrupt(CorruptFault::SignalHeadMissing(pin.id))),
        };
        if actual != pin.revision {
            return Err(MemoryError::RevisionConflict { expected: pin.revision, actual });
        }
        let current = match self.relation_signals.get(&RevisionKey { id: pin.id.0, revision: pin.revision }) {
            Some(current) => *current,
            None => return Err(
                MemoryError::Corrupt(CorruptFault::SignalRevisionMissing(pin.id, pin.revision)),
            ),
        };
        if pin.revision == u64::MAX {
            return Err(MemoryError::Corrupt(CorruptFault::SignalRevisionOverflow));
        }
        let revision: u64 = pin.revision + 1;
        let next = RelationSignalRevisionHeader {
            revision,
            previous_revision: Some(pin.revision),
            state,
            recorded_at_ms,
            operation_id,
            ..current
        };
        batch.push(Write::PutSignal(RevisionKey { id: pin.id.0, revision }, next));
        batch.push(Write::PutSignalHead(pin.id, revision));
        if state == RecordState::Purged {
            batch.push(Write::DropSignalPayload(pin.id));
        }
        Ok(RelationSignalPin { id: pin.id, revision })
    }

    pub(crate) fn purge_signals(
        &self,
        batch: &mut Batch,
        pins: &Vec<RelationSignalPin>,
        operation_id: OperationId,
        recorded_at_ms: i64,
    ) -> (r: MemoryResult<Vec<RelationSignalPin>>)
        ensures
            match (
                r,
                self@.signals_purged(
                    self@.after(old(batch)@),
                    pins@,
                    pins@.len(),
                    operation_id,
                    recorded_at_ms,
                ),
            ) {
                (Ok(done), Ok((after, owed))) => self@.after(final(batch)@) == after && done@ == owed,
                (Err(error), Err(refusal)) => error == refusal,
                _ => false,
            },
    {
        let ghost start = self@.after(batch@);
        let mut done: Vec<RelationSignalPin> = Vec::new();
        for i in 0..pins.len()
            invariant
                start == self@.after(old(batch)@),
                self@.signals_purged(start, pins@, i as nat, operation_id, recorded_at_ms) == Ok::<
                    (StoreModel, Seq<RelationSignalPin>),
                    MemoryError,
                >((self@.after(batch@), done@)),
        {
            match self.append_relation_signal_state_revision(
                batch,
                pins[i],
                RecordState::Purged,
                operation_id,
                recorded_at_ms,
            ) {
                Err(error) => {
                    proof {
                        signals_purged_refusal_persists(
                            self@,
                            start,
                            pins@,
                            (i + 1) as nat,
                            pins@.len(),
                            operation_id,
                            recorded_at_ms,
                        );
                    }
                    return Err(error);
                },
                Ok(pin) => {
                    done.push(pin);
                },
            }
        }
        Ok(done)
    }

    pub(crate) fn drop_traces(&self, batch: &mut Batch, ids: &Vec<ActivationTraceId>)
        ensures
            self@.after(final(batch)@) == self@.after(old(batch)@).without_traces(ids@, ids@.len()),
    {
        let ghost start = self@.after(batch@);
        for i in 0..ids.len()
            invariant
                self@.after(batch@) == start.without_traces(ids@, i as nat),
        {
            batch.push(Write::DropTracePayload(ids[i]));
        }
    }
}

} // verus!
