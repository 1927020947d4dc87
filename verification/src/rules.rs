//! What a request must satisfy before anything is read or written.
use vstd::prelude::*;
use crate::fault::{InputFault, MemoryError, MemoryResult, TextField, invalid};
use crate::inspect::shown;
use crate::records::evidence::{
    Actor, ClaimDomain, EvidenceClass, EvidenceLifecycle, EvidenceLifecycleModel, RecordState,
    TerminalTurnStatus,
};
use crate::text::{byte_len, trim, trimmed, utf8};

verus! {

pub const MAX_TEXT_BYTES: usize = 65_536;

/// Exact observations may be larger than derived semantic text.
pub const MAX_EVIDENCE_TEXT_BYTES: usize = 1_048_576;

pub const MAX_SOURCE_EVENT_ID_BYTES: usize = 256;

pub const MAX_EVIDENCE_SOURCES: usize = 64;

/// A text without the blanks at its ends, if something is left and it is not too long.
pub open spec fn trimmed_text(text: Seq<char>, field: TextField) -> MemoryResult<Seq<char>> {
    let kept = trimmed(text);
    if kept.len() == 0 {
        invalid(InputFault::EmptyText(field))
    } else if utf8(kept).len() > MAX_TEXT_BYTES {
        invalid(InputFault::TextTooLong(field, MAX_TEXT_BYTES))
    } else {
        Ok(kept)
    }
}

pub fn validate_text(text: &str, field: TextField) -> (r: MemoryResult<String>)
    ensures
        shown(r) == trimmed_text(text@, field),
{
    let kept = trim(text);
    if kept.as_str().is_empty() {
        return Err(MemoryError::InvalidInput(InputFault::EmptyText(field)));
    }
    if byte_len(kept.as_str()) > MAX_TEXT_BYTES {
        return Err(MemoryError::InvalidInput(InputFault::TextTooLong(field, MAX_TEXT_BYTES)));
    }
    Ok(kept)
}

/// Why a text that is kept as it is cannot be accepted: it is blank, or too long.
pub open spec fn exact_text_fault(text: Seq<char>, field: TextField, max_bytes: usize) -> Option<InputFault> {
    if trimmed(text).len() == 0 {
        Some(InputFault::EmptyText(field))
    } else if utf8(text).len() > max_bytes {
        Some(InputFault::TextTooLong(field, max_bytes))
    } else {
        None
    }
}

pub fn validate_exact_bounded_text(text: &str, field: TextField, max_bytes: usize) -> (r: MemoryResult<()>)
    ensures
        r == (match exact_text_fault(text@, field, max_bytes) {
            Some(fault) => invalid(fault),
            None => Ok(()),
        }),
{
    if trim(text).as_str().is_empty() {
        return Err(MemoryError::InvalidInput(InputFault::EmptyText(field)));
    }
    if byte_len(text) > max_bytes {
        return Err(MemoryError::InvalidInput(InputFault::TextTooLong(field, max_bytes)));
    }
    Ok(())
}

pub fn validate_exact_evidence_text(text: &str, field: TextField) -> (r: MemoryResult<()>)
    ensures
        r == (match exact_text_fault(text@, field, MAX_EVIDENCE_TEXT_BYTES) {
            Some(fault) => invalid(fault),
            None => Ok(()),
        }),
{
    validate_exact_bounded_text(text, field, MAX_EVIDENCE_TEXT_BYTES)
}

/// Whether an actor may create artifacts.
pub open spec fn may_handle_artifacts(actor: Actor) -> bool {
    actor != Actor::Assistant
}

pub fn require_artifact_actor(actor: Actor) -> (r: MemoryResult<()>)
    ensures
        r == (if may_handle_artifacts(actor) {
            Ok(())
        } else {
            Err(MemoryError::Unauthorized)
        }),
{
    match actor {
        Actor::User | Actor::System | Actor::Operator => Ok(()),
        Actor::Assistant => Err(MemoryError::Unauthorized),
    }
}

/// Why a parent cannot be built upon: it moved on, or it is not active.
pub open spec fn parent_fault(state: RecordState, actual_revision: u64, expected_revision: u64) -> Option<
    MemoryError,
> {
    if actual_revision != expected_revision {
        Some(MemoryError::RevisionConflict { expected: expected_revision, actual: actual_revision })
    } else if state != RecordState::Active {
        Some(MemoryError::InvalidInput(InputFault::ArtifactParentInactive))
    } else {
        None
    }
}

pub fn require_active_revision(state: RecordState, actual_revision: u64, expected_revision: u64) -> (r:
    MemoryResult<()>)
    ensures
        r == (match parent_fault(state, actual_revision, expected_revision) {
            Some(error) => Err(error),
            None => Ok(()),
        }),
{
    if actual_revision != expected_revision {
        return Err(
            MemoryError::RevisionConflict { expected: expected_revision, actual: actual_revision },
        );
    }
    if state != RecordState::Active {
        return Err(MemoryError::InvalidInput(InputFault::ArtifactParentInactive));
    }
    Ok(())
}

/// Whether an actor may capture evidence of a class directly.
pub open spec fn may_capture(actor: Actor, class: EvidenceClass) -> bool {
    match class {
        EvidenceClass::UserAssertion | EvidenceClass::UserCorrection => actor == Actor::User,
        EvidenceClass::ImportedSource => actor != Actor::Assistant,
        EvidenceClass::ToolObservation
        | EvidenceClass::ActionOutcome
        | EvidenceClass::SystemObservation
        | EvidenceClass::AssistantCommitment => actor == Actor::System || actor == Actor::Operator,
        EvidenceClass::AssistantUtterance => actor != Actor::User,
        EvidenceClass::ArtifactSnapshot | EvidenceClass::ArtifactPassage => false,
    }
}

/// Whether evidence of a class may arise at this point of a turn.
pub open spec fn fits_lifecycle(class: EvidenceClass, lifecycle: EvidenceLifecycleModel) -> bool {
    match class {
        EvidenceClass::AssistantCommitment => lifecycle matches EvidenceLifecycleModel::TerminalTurn {
            status,
            ..
        } && status == TerminalTurnStatus::Completed,
        EvidenceClass::ToolObservation
        | EvidenceClass::ActionOutcome
        | EvidenceClass::AssistantUtterance => true,
        _ => lifecycle is Direct,
    }
}

/// Why evidence cannot be captured.
pub open spec fn capture_fault(actor: Actor, class: EvidenceClass, lifecycle: EvidenceLifecycleModel) -> Option<
    MemoryError,
> {
    if class == EvidenceClass::ArtifactSnapshot || class == EvidenceClass::ArtifactPassage {
        Some(MemoryError::InvalidInput(InputFault::ArtifactEvidenceClass))
    } else if !may_capture(actor, class) {
        Some(MemoryError::Unauthorized)
    } else if lifecycle matches EvidenceLifecycleModel::TerminalTurn { source_event_id, .. } && !(0 < utf8(
        source_event_id,
    ).len() <= MAX_SOURCE_EVENT_ID_BYTES) {
        Some(MemoryError::InvalidInput(InputFault::SourceEventId))
    } else if !fits_lifecycle(class, lifecycle) {
        Some(MemoryError::InvalidInput(InputFault::CaptureLifecycle))
    } else {
        None
    }
}

pub fn validate_evidence_capture(actor: Actor, class: EvidenceClass, lifecycle: &EvidenceLifecycle) -> (r:
    MemoryResult<()>)
    ensures
        r == (match capture_fault(actor, class, lifecycle@) {
            Some(error) => Err(error),
            None => Ok(()),
        }),
{
    let authorized = match class {
        EvidenceClass::ArtifactSnapshot | EvidenceClass::ArtifactPassage => {
            return Err(MemoryError::InvalidInput(InputFault::ArtifactEvidenceClass));
        },
        EvidenceClass::UserAssertion | EvidenceClass::UserCorrection => actor == Actor::User,
        EvidenceClass::ImportedSource => actor != Actor::Assistant,
        EvidenceClass::ToolObservation
        | EvidenceClass::ActionOutcome
        | EvidenceClass::SystemObservation
        | EvidenceClass::AssistantCommitment => actor == Actor::System || actor == Actor::Operator,
        EvidenceClass::AssistantUtterance => actor != Actor::User,
    };
    if !authorized {
        return Err(MemoryError::Unauthorized);
    }
    if let EvidenceLifecycle::TerminalTurn { source_event_id, .. } = lifecycle {
        let length: usize = byte_len(source_event_id.as_str());
        if length == 0 || length > MAX_SOURCE_EVENT_ID_BYTES {
            return Err(MemoryError::InvalidInput(InputFault::SourceEventId));
        }
    }
    let fits = match class {
        EvidenceClass::AssistantCommitment => match lifecycle {
            EvidenceLifecycle::TerminalTurn { status, .. } => *status == TerminalTurnStatus::Completed,
            EvidenceLifecycle::Direct => false,
        },
        EvidenceClass::ToolObservation
        | EvidenceClass::ActionOutcome
        | EvidenceClass::AssistantUtterance => true,
        _ => match lifecycle {
            EvidenceLifecycle::Direct => true,
            EvidenceLifecycle::TerminalTurn { .. } => false,
        },
    };
    if !fits {
        return Err(MemoryError::InvalidInput(InputFault::CaptureLifecycle));
    }
    Ok(())
}

/// Whether evidence of a class can support claims in a domain.
pub open spec fn admissible(class: EvidenceClass, domain: ClaimDomain) -> bool {
    match class {
        EvidenceClass::UserAssertion => domain == ClaimDomain::UserProfile || domain
            == ClaimDomain::UserPreference || domain == ClaimDomain::UserNote || domain
            == ClaimDomain::SessionContext,
        EvidenceClass::UserCorrection => domain == ClaimDomain::UserProfile || domain
            == ClaimDomain::UserPreference || domain == ClaimDomain::UserNote || domain
            == ClaimDomain::ExternalFact || domain == ClaimDomain::WorkspaceFact || domain
            == ClaimDomain::SessionContext,
        EvidenceClass::ImportedSource => domain == ClaimDomain::ExternalFact || domain
            == ClaimDomain::WorkspaceFact || domain == ClaimDomain::ArtifactContent,
        EvidenceClass::ToolObservation | EvidenceClass::ActionOutcome => domain
            == ClaimDomain::ExternalFact || domain == ClaimDomain::WorkspaceFact || domain
            == ClaimDomain::SessionContext || domain == ClaimDomain::SystemFact,
        EvidenceClass::AssistantCommitment => domain == ClaimDomain::AssistantCommitment,
        EvidenceClass::AssistantUtterance => false,
        EvidenceClass::SystemObservation => domain == ClaimDomain::SessionContext || domain
            == ClaimDomain::SystemFact,
        EvidenceClass::ArtifactSnapshot | EvidenceClass::ArtifactPassage => domain
            == ClaimDomain::ArtifactContent || domain == ClaimDomain::ExternalFact || domain
            == ClaimDomain::WorkspaceFact,
    }
}

pub fn source_is_admissible(class: EvidenceClass, domain: ClaimDomain) -> (r: bool)
    ensures
        r == admissible(class, domain),
{
    match class {
        EvidenceClass::UserAssertion => match domain {
            ClaimDomain::UserProfile
            | ClaimDomain::UserPreference
            | ClaimDomain::UserNote
            | ClaimDomain::SessionContext => true,
            _ => false,
        },
        EvidenceClass::UserCorrection => match domain {
            ClaimDomain::UserProfile
            | ClaimDomain::UserPreference
            | ClaimDomain::UserNote
            | ClaimDomain::ExternalFact
            | ClaimDomain::WorkspaceFact
            | ClaimDomain::SessionContext => true,
            _ => false,
        },
        EvidenceClass::ImportedSource => match domain {
            ClaimDomain::ExternalFact | ClaimDomain::WorkspaceFact | ClaimDomain::ArtifactContent => true,
            _ => false,
        },
        EvidenceClass::ToolObservation | EvidenceClass::ActionOutcome => match domain {
            ClaimDomain::ExternalFact
            | ClaimDomain::WorkspaceFact
            | ClaimDomain::SessionContext
            | ClaimDomain::SystemFact => true,
            _ => false,
        },
        EvidenceClass::AssistantCommitment => domain == ClaimDomain::AssistantCommitment,
        EvidenceClass::AssistantUtterance => false,
        EvidenceClass::SystemObservation => match domain {
            ClaimDomain::SessionContext | ClaimDomain::SystemFact => true,
            _ => false,
        },
        EvidenceClass::ArtifactSnapshot | EvidenceClass::ArtifactPassage => match domain {
            ClaimDomain::ArtifactContent | ClaimDomain::ExternalFact | ClaimDomain::WorkspaceFact => true,
            _ => false,
        },
    }
}

/// An utterance of the assistant supports no claim.
pub proof fn utterances_support_nothing(domain: ClaimDomain)
    ensures
        !admissible(EvidenceClass::AssistantUtterance, domain),
{
}

/// Whether the user stated evidence of a class.
pub open spec fn stated_by_user(class: EvidenceClass) -> bool {
    class == EvidenceClass::UserAssertion || class == EvidenceClass::UserCorrection
}

/// Whether a domain is the user's own to speak for.
pub open spec fn user_domain(domain: ClaimDomain) -> bool {
    domain == ClaimDomain::UserProfile || domain == ClaimDomain::UserPreference || domain
        == ClaimDomain::UserNote || domain == ClaimDomain::SessionContext
}

pub fn is_user_domain(domain: ClaimDomain) -> (r: bool)
    ensures
        r == user_domain(domain),
{
    match domain {
        ClaimDomain::UserProfile
        | ClaimDomain::UserPreference
        | ClaimDomain::UserNote
        | ClaimDomain::SessionContext => true,
        _ => false,
    }
}

pub open spec fn all_stated_by_user(classes: Seq<EvidenceClass>) -> bool {
    forall|i: int| 0 <= i < classes.len() ==> stated_by_user(#[trigger] classes[i])
}

pub fn are_stated_by_user(classes: &Vec<EvidenceClass>) -> (r: bool)
    ensures
        r == all_stated_by_user(classes@),
{
    for i in 0..classes.len()
        invariant
            forall|j: int| 0 <= j < i ==> stated_by_user(#[trigger] classes@[j]),
    {
        if classes[i] != EvidenceClass::UserAssertion && classes[i] != EvidenceClass::UserCorrection {
            assert(!stated_by_user(classes@[i as int]));
            return false;
        }
    }
    true
}

/// Whether an actor may activate a claim in a domain on such evidence.
pub open spec fn may_activate_claim(actor: Actor, domain: ClaimDomain, classes: Seq<EvidenceClass>) -> bool {
    match actor {
        Actor::Assistant => false,
        Actor::System | Actor::Operator => true,
        Actor::User => user_domain(domain) && all_stated_by_user(classes),
    }
}

pub fn validate_claim_activation(actor: Actor, domain: ClaimDomain, source_classes: &Vec<EvidenceClass>) -> (r:
    MemoryResult<()>)
    ensures
        r == (if may_activate_claim(actor, domain, source_classes@) {
            Ok(())
        } else {
            Err(MemoryError::Unauthorized)
        }),
{
    let authorized = match actor {
        Actor::Assistant => false,
        Actor::System | Actor::Operator => true,
        Actor::User => is_user_domain(domain) && are_stated_by_user(source_classes),
    };
    if authorized {
        Ok(())
    } else {
        Err(MemoryError::Unauthorized)
    }
}

/// Whether an actor may activate a relation on such evidence.
pub open spec fn may_activate_relation(actor: Actor, classes: Seq<EvidenceClass>) -> bool {
    match actor {
        Actor::Assistant => false,
        Actor::System | Actor::Operator => true,
        Actor::User => all_stated_by_user(classes),
    }
}

pub fn validate_relation_activation(actor: Actor, source_classes: &Vec<EvidenceClass>) -> (r: MemoryResult<()>)
    ensures
        r == (if may_activate_relation(actor, source_classes@) {
            Ok(())
        } else {
            Err(MemoryError::Unauthorized)
        }),
{
    let authorized = match actor {
        Actor::Assistant => false,
        Actor::System | Actor::Operator => true,
        Actor::User => are_stated_by_user(source_classes),
    };
    if authorized {
        Ok(())
    } else {
        Err(MemoryError::Unauthorized)
    }
}

/// The assistant activates nothing, whatever the evidence.
pub proof fn assistant_activates_nothing(domain: ClaimDomain, classes: Seq<EvidenceClass>)
    ensures
        !may_activate_claim(Actor::Assistant, domain, classes),
        !may_activate_relation(Actor::Assistant, classes),
{
}

} // verus!
