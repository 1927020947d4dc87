//! What a refusal says.
use vstd::prelude::*;
use vstd::string::StringExecFns;
use crate::fault::InputFault;
use crate::ids::Ulid;
use crate::records::claim::RelationKind;

verus! {

/// A decimal digit.
pub open spec fn digit(value: u64) -> char {
    seq!['0', '1', '2', '3', '4', '5', '6', '7', '8', '9'][value as int]
}

/// The decimal digits of a number.
pub open spec fn decimal_text(value: u64) -> Seq<char>
    decreases value,
{
    if value < 10 {
        seq![digit(value)]
    } else {
        decimal_text(value / 10).push(digit(value % 10))
    }
}

fn digit_letter(value: u64) -> (r: char)
    requires
        value < 10,
    ensures
        r == digit(value),
{
    match value {
        0 => '0',
        1 => '1',
        2 => '2',
        3 => '3',
        4 => '4',
        5 => '5',
        6 => '6',
        7 => '7',
        8 => '8',
        _ => '9',
    }
}

/// The decimal digits of a number.
pub(crate) fn decimal(value: u64) -> (r: String)
    ensures
        r@ == decimal_text(value),
    decreases value,
{
    if value < 10 {
        let mut r = String::new();
        r.push(digit_letter(value));
        assert(r@ =~= seq![digit(value)]);
        r
    } else {
        let mut r = decimal(value / 10);
        r.push(digit_letter(value % 10));
        r
    }
}

/// A digit in base 32, without the letters that look like others.
pub open spec fn base32_digit(value: int) -> char {
    seq![
        '0', '1', '2', '3', '4', '5', '6', '7', '8', '9', 'A', 'B', 'C', 'D', 'E', 'F', 'G', 'H', 'J', 'K', 'M', 'N',
        'P', 'Q', 'R', 'S', 'T', 'V', 'W', 'X', 'Y', 'Z',
    ][value]
}

/// The last `n` digits of a number in base 32.
pub open spec fn base32_text(value: int, n: nat) -> Seq<char>
    decreases n,
{
    if n == 0 {
        Seq::empty()
    } else {
        base32_text(value / 32, (n - 1) as nat).push(base32_digit(value % 32))
    }
}

/// The text form of an identifier.
pub open spec fn ulid_text(value: u128) -> Seq<char> {
    base32_text(value as int, 26)
}

/// Calls `to_string` of `ulid::Ulid`: the text consists of the identifier's 26 digits in
/// base 32, the most significant first.
#[verifier::external_body]
fn ulid_string(value: u128) -> (r: String)
    ensures
        r@ == ulid_text(value),
{
    ulid::Ulid(value).to_string()
}

impl Ulid {
    /// The text form of an identifier.
    pub fn text(self) -> (r: String)
        ensures
            r@ == ulid_text(self.0),
    {
        ulid_string(self.0)
    }
}

impl RelationKind {
    pub fn name(self) -> (r: &'static str)
        ensures
            r@ == self.name_text(),
    {
        match self {
            RelationKind::Supports => "Supports",
            RelationKind::Contradicts => "Contradicts",
            RelationKind::Supersedes => "Supersedes",
            RelationKind::About => "About",
            RelationKind::RefersTo => "RefersTo",
            RelationKind::DerivedFrom => "DerivedFrom",
            RelationKind::CanonicalizesTo => "CanonicalizesTo",
        }
    }

    /// The word for a kind of relation.
    pub open spec fn name_text(self) -> Seq<char> {
        match self {
            RelationKind::Supports => "Supports"@,
            RelationKind::Contradicts => "Contradicts"@,
            RelationKind::Supersedes => "Supersedes"@,
            RelationKind::About => "About"@,
            RelationKind::RefersTo => "RefersTo"@,
            RelationKind::DerivedFrom => "DerivedFrom"@,
            RelationKind::CanonicalizesTo => "CanonicalizesTo"@,
        }
    }
}

impl InputFault {
    /// What a malformed request is told.
    pub open spec fn text(self) -> Seq<char> {
        match self {
            InputFault::EmptyText(field) => field.name_text() + " cannot be empty"@,
            InputFault::TextTooLong(field, limit) => field.name_text() + " exceeds "@
                + decimal_text(limit as u64) + " bytes"@,
            InputFault::PassageOrdinalTaken(snapshot, ordinal) => "artifact snapshot "@
                + ulid_text(snapshot.0.0) + " already has passage ordinal "@ + decimal_text(ordinal as u64),
            InputFault::SourceJobReused(job) => "source job "@ + ulid_text(job.0.0)
                + " already identifies a different proposal bundle"@,
            InputFault::SignalPairOwned(owner, named) => "relation signal pair belongs to "@
                + ulid_text(owner.0.0) + ", not "@ + ulid_text(named.0.0),
            InputFault::EndpointMismatch(kind) => kind.name_text()
                + " relation endpoints do not match the relation kind"@,
            InputFault::ValidTimeInterval => "valid time must use a non-empty [from, to) interval"@,
            InputFault::FingerprintDomain => "fingerprint domain must contain 1..=64 bytes"@,
            InputFault::FingerprintInput => "fingerprint input exceeds 1048576 bytes"@,
            InputFault::SourceEventId => "terminal source event ID must contain 1..=256 bytes"@,
            InputFault::SnapshotBytes => "artifact snapshot bytes must contain 1..=33554432 bytes"@,
            InputFault::PassageBeyondSnapshot => "artifact passage byte range exceeds its snapshot"@,
            InputFault::InactiveRetraction => "only an active record can be retracted"@,
            InputFault::AssertionDomain => "a user assertion cannot support the requested claim domain"@,
            InputFault::InactiveCorrection => "only an active claim can be corrected"@,
            InputFault::CorrectionDomain => "a user correction cannot support the target claim domain"@,
            InputFault::ClaimWithoutEvidence => "a claim requires at least one evidence source"@,
            InputFault::ClaimSources => "a claim cannot cite more than 64 evidence sources"@,
            InputFault::RelationEndpointsEqual => "a semantic relation requires distinct endpoints"@,
            InputFault::RelationOnRelation => "semantic relations cannot use another relation as an endpoint"@,
            InputFault::RelationEndpointUnsupported => "unsupported semantic relation endpoint"@,
            InputFault::RelationWithoutEvidence => "a semantic relation requires at least one evidence source"@,
            InputFault::RelationSources => "a semantic relation cannot cite more than 64 evidence sources"@,
            InputFault::RelationEndpointInactive => "semantic relation endpoints must be active"@,
            InputFault::SupersedesKinds => "Supersedes requires same-kind claim or entity endpoints"@,
            InputFault::EvaluatorSchemaVersion => "relation evaluator schema version must be positive"@,
            InputFault::EvaluatorDimensionCount => "relation evaluator must declare 1..=16 dimensions"@,
            InputFault::EvaluatorDimensionsRepeat => "relation evaluator dimensions must be unique"@,
            InputFault::EvaluatorNotRevisable => "only an active relation evaluator can be revised"@,
            InputFault::EvaluatorTerminal => "relation evaluator already reached the requested terminal state"@,
            InputFault::EvaluatorMissing => "relation evaluator does not exist"@,
            InputFault::EvaluatorInactive => "relation evaluator is not active"@,
            InputFault::ProfileHeadCount => "relation profile must declare 1..=16 heads"@,
            InputFault::ProfileHeadsRepeat => "relation profile head dimensions must be unique"@,
            InputFault::ProfileWeightRange => "relation profile weights must be within +/-1000000"@,
            InputFault::ProfileHeadUndeclared => "relation profile head is not declared by its evaluator"@,
            InputFault::ProfileNotRevisable => "only an active relation profile can be revised"@,
            InputFault::ProfileTerminal => "relation profile already reached the requested terminal state"@,
            InputFault::ProfileMissing => "relation profile does not exist"@,
            InputFault::SignalBatchSize => "relation signal batch must contain 1..=1024 signals"@,
            InputFault::SignalEndpointsEqual => "relation signal endpoints must be distinct"@,
            InputFault::SignalPairsRepeat => "relation signal batch pairs must be unique"@,
            InputFault::SignalScoreCount => "relation signal must contain 1..=16 dimension scores"@,
            InputFault::SignalDimensionsRepeat => "relation signal score dimensions must be unique"@,
            InputFault::SignalScoreRange => "relation signal scores must be within +/-1000000"@,
            InputFault::SignalPinsStale => "relation profile and evaluator pins are not jointly current"@,
            InputFault::SignalDimensionDisabled => "relation signal dimension is not enabled by its profile"@,
            InputFault::SignalPurged => "a purged relation signal cannot be revised"@,
            InputFault::ActivationCandidateCount => "shadow activation must contain 1..=64 candidates"@,
            InputFault::ActivationCandidatesRepeat => "shadow activation candidates must be unique"@,
            InputFault::RecallCaseMissing => "recall case does not exist"@,
            InputFault::ActivationCandidateUnpinned => "shadow activation candidates must be exact pins from the recall case"@,
            InputFault::TracePayloadGone => "activation trace payload is no longer available"@,
            InputFault::ActivationEvaluatorStale => "shadow activation evaluator pin is not current and active"@,
            InputFault::ActivationPinsStale => "shadow activation profile and evaluator pins are not jointly current"@,
            InputFault::ActivationSumOverflow => "relation activation head sum overflow"@,
            InputFault::ActivationTotalOverflow => "relation activation total overflow"@,
            InputFault::RecallWithoutScope => "recall requires at least one visible scope"@,
            InputFault::RecallScopeCount => "recall cannot include more than 32 visible scopes"@,
            InputFault::ObservedTimeInterval => "observed time must use a non-empty [from, to) interval"@,
            InputFault::RecallQueryBytes => "recall query exceeds 32768 bytes"@,
            InputFault::RecallWithoutCue => "recall requires lexical text or an observed-time bound"@,
            InputFault::ReviewNotPending => "only an available pending proposal can be reviewed"@,
            InputFault::FindingChangeIndex => "review finding change index is outside the pinned proposal"@,
            InputFault::ApproveWithFindings => "an approve verdict cannot contain review findings"@,
            InputFault::FindingPinUnknown => "review finding pins must come from exact proposal evidence or recall case candidates"@,
            InputFault::ProposalPayloadGone => "proposal payload is unavailable"@,
            InputFault::WorkflowRecordGone => "proposal workflow record is unavailable"@,
            InputFault::ReviewPinsOther => "review case does not pin the adjudicated proposal revision"@,
            InputFault::AcceptanceNotPermitted => "proposal review status does not permit acceptance by this authority"@,
            InputFault::PinnedRecallCaseGone => "pinned recall case is unavailable"@,
            InputFault::FindingPayloadGone => "review finding payload is unavailable"@,
            InputFault::ReplacementUnresolved => "supersession replacement draft is unresolved"@,
            InputFault::FeedbackWithCandidate => "missing-expected-record feedback must not name a candidate"@,
            InputFault::FeedbackWithoutCandidate => "candidate-specific recall feedback requires a candidate"@,
            InputFault::FeedbackCandidateUnpinned => "feedback candidate is not pinned by the recall case"@,
            InputFault::AlreadyPurged => "record payload was already purged"@,
            InputFault::PurgePayloadCount => "too many purge payloads"@,
            InputFault::PinnedRecordInactive => "pinned record is no longer active"@,
            InputFault::ArtifactParentInactive => "artifact parent is not active"@,
            InputFault::EndpointKinds => "relation endpoints must be evidence, claims, or entities"@,
            InputFault::DraftEndpointKinds => "relation draft endpoints must resolve to a claim or entity"@,
            InputFault::DraftUnresolved => "unresolved proposal draft endpoint"@,
            InputFault::ProposedEvidenceUnpinned => "proposed evidence is not pinned"@,
            InputFault::ProposedWithoutEvidence => "a proposed semantic record requires evidence"@,
            InputFault::ProposedSources => "a proposed semantic record cannot cite more than 64 sources"@,
            InputFault::ProposedEvidencePin => "every proposed evidence ID must have an exact source pin"@,
            InputFault::ProposalWithoutEvidence => "a proposal requires at least one pinned evidence source"@,
            InputFault::ProposalSources => "a proposal cannot pin more than 64 evidence sources"@,
            InputFault::ProposalChangeCount => "a proposal must contain 1..=128 changes"@,
            InputFault::EntityAliasCount => "an entity cannot have more than 64 aliases"@,
            InputFault::ProposalAliasCount => "proposal cannot contain more than 1024 total aliases"@,
            InputFault::ProposedEndpointsEqual => "a proposed relation requires distinct endpoints"@,
            InputFault::MutationTargetRepeats => "a proposal cannot mutate one target more than once"@,
            InputFault::DraftIdsRepeat => "proposal draft IDs must be unique"@,
            InputFault::WorkflowTarget => "proposal bundles cannot target proposal workflow records"@,
            InputFault::ReplacementKind => "supersession replacement must be a same-kind claim or entity draft"@,
            InputFault::MutatesOwnSource => "a proposal cannot mutate one of its own evidence sources"@,
            InputFault::MutatesEndpoint => "a proposal cannot mutate an endpoint it also activates"@,
            InputFault::DependencyEdgeCount => "proposal cannot create more than 4096 dependency edges"@,
            InputFault::ProposalEncodedBytes => "proposal bundle exceeds 1048576 encoded bytes"@,
            InputFault::ReviewFindingCount => "a proposal review cannot contain more than 64 findings"@,
            InputFault::FindingPinCount => "a review finding cannot pin more than 64 records"@,
            InputFault::PassageBatchSize => "artifact passage batch must contain 1..=512 passages"@,
            InputFault::PassageBatchBytes => "artifact passage batch exceeds 8388608 text bytes"@,
            InputFault::PassageOrdinals => "artifact passage locators must have strictly increasing ordinals"@,
            InputFault::PassageTerms => "indexed text exceeds 8192 terms"@,
            InputFault::ByteRange => "artifact byte range must be a non-empty [start, end) range"@,
            InputFault::PageRange => "artifact page range must be a non-empty [start, end) range"@,
            InputFault::TimeRange => "artifact time range must be a non-empty [start, end) range"@,
            InputFault::ArtifactEvidenceClass => "artifact evidence must be created through the first-class artifact API"@,
            InputFault::CaptureLifecycle => "evidence class is incompatible with its capture lifecycle"@,
        }
    }

    pub fn message(self) -> (r: String)
        ensures
            r@ == self.text(),
    {
        match self {
            InputFault::EmptyText(field) => String::from_str(field.name()).concat(" cannot be empty"),
            InputFault::TextTooLong(field, limit) => String::from_str(field.name()).concat(
                " exceeds ",
            ).concat(decimal(limit as u64).as_str()).concat(" bytes"),
            InputFault::PassageOrdinalTaken(snapshot, ordinal) => String::from_str(
                "artifact snapshot ",
            ).concat(snapshot.0.text().as_str()).concat(" already has passage ordinal ").concat(
                decimal(ordinal as u64).as_str(),
            ),
            InputFault::SourceJobReused(job) => String::from_str("source job ").concat(
                job.0.text().as_str(),
            ).concat(" already identifies a different proposal bundle"),
            InputFault::SignalPairOwned(owner, named) => String::from_str(
                "relation signal pair belongs to ",
            ).concat(owner.0.text().as_str()).concat(", not ").concat(named.0.text().as_str()),
            InputFault::EndpointMismatch(kind) => String::from_str(kind.name()).concat(
                " relation endpoints do not match the relation kind",
            ),
            InputFault::ValidTimeInterval => String::from_str("valid time must use a non-empty [from, to) interval"),
            InputFault::FingerprintDomain => String::from_str("fingerprint domain must contain 1..=64 bytes"),
            InputFault::FingerprintInput => String::from_str("fingerprint input exceeds 1048576 bytes"),
            InputFault::SourceEventId => String::from_str("terminal source event ID must contain 1..=256 bytes"),
            InputFault::SnapshotBytes => String::from_str("artifact snapshot bytes must contain 1..=33554432 bytes"),
            InputFault::PassageBeyondSnapshot => String::from_str("artifact passage byte range exceeds its snapshot"),
            InputFault::InactiveRetraction => String::from_str("only an active record can be retracted"),
            InputFault::AssertionDomain => String::from_str("a user assertion cannot support the requested claim domain"),
            InputFault::InactiveCorrection => String::from_str("only an active claim can be corrected"),
            InputFault::CorrectionDomain => String::from_str("a user correction cannot support the target claim domain"),
            InputFault::ClaimWithoutEvidence => String::from_str("a claim requires at least one evidence source"),
            InputFault::ClaimSources => String::from_str("a claim cannot cite more than 64 evidence sources"),
            InputFault::RelationEndpointsEqual => String::from_str("a semantic relation requires distinct endpoints"),
            InputFault::RelationOnRelation => String::from_str("semantic relations cannot use another relation as an endpoint"),
            InputFault::RelationEndpointUnsupported => String::from_str("unsupported semantic relation endpoint"),
            InputFault::RelationWithoutEvidence => String::from_str("a semantic relation requires at least one evidence source"),
            InputFault::RelationSources => String::from_str("a semantic relation cannot cite more than 64 evidence sources"),
            InputFault::RelationEndpointInactive => String::from_str("semantic relation endpoints must be active"),
            InputFault::SupersedesKinds => String::from_str("Supersedes requires same-kind claim or entity endpoints"),
            InputFault::EvaluatorSchemaVersion => String::from_str("relation evaluator schema version must be positive"),
            InputFault::EvaluatorDimensionCount => String::from_str("relation evaluator must declare 1..=16 dimensions"),
            InputFault::EvaluatorDimensionsRepeat => String::from_str("relation evaluator dimensions must be unique"),
            InputFault::EvaluatorNotRevisable => String::from_str("only an active relation evaluator can be revised"),
            InputFault::EvaluatorTerminal => String::from_str("relation evaluator already reached the requested terminal state"),
            InputFault::EvaluatorMissing => String::from_str("relation evaluator does not exist"),
            InputFault::EvaluatorInactive => String::from_str("relation evaluator is not active"),
            InputFault::ProfileHeadCount => String::from_str("relation profile must declare 1..=16 heads"),
            InputFault::ProfileHeadsRepeat => String::from_str("relation profile head dimensions must be unique"),
            InputFault::ProfileWeightRange => String::from_str("relation profile weights must be within +/-1000000"),
            InputFault::ProfileHeadUndeclared => String::from_str("relation profile head is not declared by its evaluator"),
            InputFault::ProfileNotRevisable => String::from_str("only an active relation profile can be revised"),
            InputFault::ProfileTerminal => String::from_str("relation profile already reached the requested terminal state"),
            InputFault::ProfileMissing => String::from_str("relation profile does not exist"),
            InputFault::SignalBatchSize => String::from_str("relation signal batch must contain 1..=1024 signals"),
            InputFault::SignalEndpointsEqual => String::from_str("relation signal endpoints must be distinct"),
            InputFault::SignalPairsRepeat => String::from_str("relation signal batch pairs must be unique"),
            InputFault::SignalScoreCount => String::from_str("relation signal must contain 1..=16 dimension scores"),
            InputFault::SignalDimensionsRepeat => String::from_str("relation signal score dimensions must be unique"),
            InputFault::SignalScoreRange => String::from_str("relation signal scores must be within +/-1000000"),
            InputFault::SignalPinsStale => String::from_str("relation profile and evaluator pins are not jointly current"),
            InputFault::SignalDimensionDisabled => String::from_str("relation signal dimension is not enabled by its profile"),
            InputFault::SignalPurged => String::from_str("a purged relation signal cannot be revised"),
            InputFault::ActivationCandidateCount => String::from_str("shadow activation must contain 1..=64 candidates"),
            InputFault::ActivationCandidatesRepeat => String::from_str("shadow activation candidates must be unique"),
            InputFault::RecallCaseMissing => String::from_str("recall case does not exist"),
            InputFault::ActivationCandidateUnpinned => String::from_str("shadow activation candidates must be exact pins from the recall case"),
            InputFault::TracePayloadGone => String::from_str("activation trace payload is no longer available"),
            InputFault::ActivationEvaluatorStale => String::from_str("shadow activation evaluator pin is not current and active"),
            InputFault::ActivationPinsStale => String::from_str("shadow activation profile and evaluator pins are not jointly current"),
            InputFault::ActivationSumOverflow => String::from_str("relation activation head sum overflow"),
            InputFault::ActivationTotalOverflow => String::from_str("relation activation total overflow"),
            InputFault::RecallWithoutScope => String::from_str("recall requires at least one visible scope"),
            InputFault::RecallScopeCount => String::from_str("recall cannot include more than 32 visible scopes"),
            InputFault::ObservedTimeInterval => String::from_str("observed time must use a non-empty [from, to) interval"),
            InputFault::RecallQueryBytes => String::from_str("recall query exceeds 32768 bytes"),
            InputFault::RecallWithoutCue => String::from_str("recall requires lexical text or an observed-time bound"),
            InputFault::ReviewNotPending => String::from_str("only an available pending proposal can be reviewed"),
            InputFault::FindingChangeIndex => String::from_str("review finding change index is outside the pinned proposal"),
            InputFault::ApproveWithFindings => String::from_str("an approve verdict cannot contain review findings"),
            InputFault::FindingPinUnknown => String::from_str("review finding pins must come from exact proposal evidence or recall case candidates"),
            InputFault::ProposalPayloadGone => String::from_str("proposal payload is unavailable"),
            InputFault::WorkflowRecordGone => String::from_str("proposal workflow record is unavailable"),
            InputFault::ReviewPinsOther => String::from_str("review case does not pin the adjudicated proposal revision"),
            InputFault::AcceptanceNotPermitted => String::from_str("proposal review status does not permit acceptance by this authority"),
            InputFault::PinnedRecallCaseGone => String::from_str("pinned recall case is unavailable"),
            InputFault::FindingPayloadGone => String::from_str("review finding payload is unavailable"),
            InputFault::ReplacementUnresolved => String::from_str("supersession replacement draft is unresolved"),
            InputFault::FeedbackWithCandidate => String::from_str("missing-expected-record feedback must not name a candidate"),
            InputFault::FeedbackWithoutCandidate => String::from_str("candidate-specific recall feedback requires a candidate"),
            InputFault::FeedbackCandidateUnpinned => String::from_str("feedback candidate is not pinned by the recall case"),
            InputFault::AlreadyPurged => String::from_str("record payload was already purged"),
            InputFault::PurgePayloadCount => String::from_str("too many purge payloads"),
            InputFault::PinnedRecordInactive => String::from_str("pinned record is no longer active"),
            InputFault::ArtifactParentInactive => String::from_str("artifact parent is not active"),
            InputFault::EndpointKinds => String::from_str("relation endpoints must be evidence, claims, or entities"),
            InputFault::DraftEndpointKinds => String::from_str("relation draft endpoints must resolve to a claim or entity"),
            InputFault::DraftUnresolved => String::from_str("unresolved proposal draft endpoint"),
            InputFault::ProposedEvidenceUnpinned => String::from_str("proposed evidence is not pinned"),
            InputFault::ProposedWithoutEvidence => String::from_str("a proposed semantic record requires evidence"),
            InputFault::ProposedSources => String::from_str("a proposed semantic record cannot cite more than 64 sources"),
            InputFault::ProposedEvidencePin => String::from_str("every proposed evidence ID must have an exact source pin"),
            InputFault::ProposalWithoutEvidence => String::from_str("a proposal requires at least one pinned evidence source"),
            InputFault::ProposalSources => String::from_str("a proposal cannot pin more than 64 evidence sources"),
            InputFault::ProposalChangeCount => String::from_str("a proposal must contain 1..=128 changes"),
            InputFault::EntityAliasCount => String::from_str("an entity cannot have more than 64 aliases"),
            InputFault::ProposalAliasCount => String::from_str("proposal cannot contain more than 1024 total aliases"),
            InputFault::ProposedEndpointsEqual => String::from_str("a proposed relation requires distinct endpoints"),
            InputFault::MutationTargetRepeats => String::from_str("a proposal cannot mutate one target more than once"),
            InputFault::DraftIdsRepeat => String::from_str("proposal draft IDs must be unique"),
            InputFault::WorkflowTarget => String::from_str("proposal bundles cannot target proposal workflow records"),
            InputFault::ReplacementKind => String::from_str("supersession replacement must be a same-kind claim or entity draft"),
            InputFault::MutatesOwnSource => String::from_str("a proposal cannot mutate one of its own evidence sources"),
            InputFault::MutatesEndpoint => String::from_str("a proposal cannot mutate an endpoint it also activates"),
            InputFault::DependencyEdgeCount => String::from_str("proposal cannot create more than 4096 dependency edges"),
            InputFault::ProposalEncodedBytes => String::from_str("proposal bundle exceeds 1048576 encoded bytes"),
            InputFault::ReviewFindingCount => String::from_str("a proposal review cannot contain more than 64 findings"),
            InputFault::FindingPinCount => String::from_str("a review finding cannot pin more than 64 records"),
            InputFault::PassageBatchSize => String::from_str("artifact passage batch must contain 1..=512 passages"),
            InputFault::PassageBatchBytes => String::from_str("artifact passage batch exceeds 8388608 text bytes"),
            InputFault::PassageOrdinals => String::from_str("artifact passage locators must have strictly increasing ordinals"),
            InputFault::PassageTerms => String::from_str("indexed text exceeds 8192 terms"),
            InputFault::ByteRange => String::from_str("artifact byte range must be a non-empty [start, end) range"),
            InputFault::PageRange => String::from_str("artifact page range must be a non-empty [start, end) range"),
            InputFault::TimeRange => String::from_str("artifact time range must be a non-empty [start, end) range"),
            InputFault::ArtifactEvidenceClass => String::from_str("artifact evidence must be created through the first-class artifact API"),
            InputFault::CaptureLifecycle => String::from_str("evidence class is incompatible with its capture lifecycle"),
        }
    }
}

} // verus!
