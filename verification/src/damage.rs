//! The words for malformed records.
use vstd::prelude::*;
use crate::fault::{CorruptFault, KeyUse, SignalIndex, UlidFault};
use crate::ids::Ulid;
use crate::message::{decimal, decimal_text, ulid_text};
use crate::records::evidence::RecordRef;

verus! {

impl RecordRef {
    /// The words for the kind of a record.
    pub open spec fn kind_text(self) -> Seq<char> {
        match self {
            RecordRef::Evidence(_) => "evidence"@,
            RecordRef::Claim(_) => "claim"@,
            RecordRef::SemanticRelation(_) => "relation"@,
            RecordRef::Entity(_) => "entity"@,
            RecordRef::Proposal(_) => "proposal"@,
            RecordRef::ProposalReview(_) => "proposal review"@,
            RecordRef::ArtifactCollection(_) => "artifact collection"@,
            RecordRef::ArtifactSnapshot(_) => "artifact snapshot"@,
            RecordRef::ArtifactPassage(_) => "artifact passage"@,
        }
    }

    /// The words before the revision of a record.
    pub open spec fn revision_text(self) -> Seq<char> {
        match self {
            RecordRef::Evidence(_) => "availability "@,
            RecordRef::Claim(_) => ""@,
            RecordRef::SemanticRelation(_) => ""@,
            RecordRef::Entity(_) => ""@,
            RecordRef::Proposal(_) => "head "@,
            RecordRef::ProposalReview(_) => "head "@,
            RecordRef::ArtifactCollection(_) => "availability "@,
            RecordRef::ArtifactSnapshot(_) => "availability "@,
            RecordRef::ArtifactPassage(_) => "availability "@,
        }
    }

    /// The identifier of a record.
    pub open spec fn bare_id(self) -> Ulid {
        match self {
            RecordRef::Evidence(id) => id.0,
            RecordRef::Claim(id) => id.0,
            RecordRef::SemanticRelation(id) => id.0,
            RecordRef::Entity(id) => id.0,
            RecordRef::Proposal(id) => id.0,
            RecordRef::ProposalReview(id) => id.0,
            RecordRef::ArtifactCollection(id) => id.0,
            RecordRef::ArtifactSnapshot(id) => id.0,
            RecordRef::ArtifactPassage(id) => id.0,
        }
    }

    fn kind_name(self) -> (r: &'static str)
        ensures
            r@ == self.kind_text(),
    {
        match self {
            RecordRef::Evidence(_) => "evidence",
            RecordRef::Claim(_) => "claim",
            RecordRef::SemanticRelation(_) => "relation",
            RecordRef::Entity(_) => "entity",
            RecordRef::Proposal(_) => "proposal",
            RecordRef::ProposalReview(_) => "proposal review",
            RecordRef::ArtifactCollection(_) => "artifact collection",
            RecordRef::ArtifactSnapshot(_) => "artifact snapshot",
            RecordRef::ArtifactPassage(_) => "artifact passage",
        }
    }

    fn revision_name(self) -> (r: &'static str)
        ensures
            r@ == self.revision_text(),
    {
        match self {
            RecordRef::Evidence(_) => "availability ",
            RecordRef::Claim(_) => "",
            RecordRef::SemanticRelation(_) => "",
            RecordRef::Entity(_) => "",
            RecordRef::Proposal(_) => "head ",
            RecordRef::ProposalReview(_) => "head ",
            RecordRef::ArtifactCollection(_) => "availability ",
            RecordRef::ArtifactSnapshot(_) => "availability ",
            RecordRef::ArtifactPassage(_) => "availability ",
        }
    }

    fn bare(self) -> (r: Ulid)
        ensures
            r == self.bare_id(),
    {
        match self {
            RecordRef::Evidence(id) => id.0,
            RecordRef::Claim(id) => id.0,
            RecordRef::SemanticRelation(id) => id.0,
            RecordRef::Entity(id) => id.0,
            RecordRef::Proposal(id) => id.0,
            RecordRef::ProposalReview(id) => id.0,
            RecordRef::ArtifactCollection(id) => id.0,
            RecordRef::ArtifactSnapshot(id) => id.0,
            RecordRef::ArtifactPassage(id) => id.0,
        }
    }
}

impl SignalIndex {
    /// The words for an index.
    pub open spec fn text(self) -> Seq<char> {
        match self {
            SignalIndex::Pair => "relation signal pair"@,
            SignalIndex::Dependency => "relation-signal dependency"@,
            SignalIndex::Owner => "relation-signal owner"@,
        }
    }

    fn name(self) -> (r: &'static str)
        ensures
            r@ == self.text(),
    {
        match self {
            SignalIndex::Pair => "relation signal pair",
            SignalIndex::Dependency => "relation-signal dependency",
            SignalIndex::Owner => "relation-signal owner",
        }
    }
}

impl KeyUse {
    /// The words for what a key is for.
    pub open spec fn text(self) -> Seq<char> {
        match self {
            KeyUse::Revision => "revision"@,
            KeyUse::Ordinal => "artifact passage ordinal"@,
            KeyUse::Pair => "relation signal pair"@,
            KeyUse::SignalRecord => "relation-signal record dependency"@,
            KeyUse::SignalOwner => "relation-signal owner dependency"@,
            KeyUse::TraceRecord => "activation-trace record dependency"@,
            KeyUse::TraceOwner => "activation-trace owner dependency"@,
            KeyUse::Dependency => "dependency"@,
            KeyUse::Posting => "lexical posting"@,
            KeyUse::Time => "observed-time"@,
        }
    }

    pub fn name(self) -> (r: &'static str)
        ensures
            r@ == self.text(),
    {
        match self {
            KeyUse::Revision => "revision",
            KeyUse::Ordinal => "artifact passage ordinal",
            KeyUse::Pair => "relation signal pair",
            KeyUse::SignalRecord => "relation-signal record dependency",
            KeyUse::SignalOwner => "relation-signal owner dependency",
            KeyUse::TraceRecord => "activation-trace record dependency",
            KeyUse::TraceOwner => "activation-trace owner dependency",
            KeyUse::Dependency => "dependency",
            KeyUse::Posting => "lexical posting",
            KeyUse::Time => "observed-time",
        }
    }
}

impl UlidFault {
    /// The words for what is wrong with a text.
    pub open spec fn text(self) -> Seq<char> {
        match self {
            UlidFault::Length => "invalid length"@,
            UlidFault::Letter => "invalid character"@,
        }
    }

    pub fn name(self) -> (r: &'static str)
        ensures
            r@ == self.text(),
    {
        match self {
            UlidFault::Length => "invalid length",
            UlidFault::Letter => "invalid character",
        }
    }
}

impl CorruptFault {
    /// The words for a fault.
    pub open spec fn text(self) -> Seq<char> {
        match self {
            CorruptFault::RevisionMissing(record, revision) => record.kind_text() + " "@ + ulid_text(record.bare_id().0) + " is missing "@ + record.revision_text() + "revision "@ + decimal_text(revision),
            CorruptFault::HeadMissing(record) => record.kind_text() + " "@ + ulid_text(record.bare_id().0) + " has no head"@,
            CorruptFault::SnapshotBlobMissing(id) => "artifact snapshot "@ + ulid_text(id.0.0) + " metadata exists without its blob"@,
            CorruptFault::SnapshotBlobMismatch(id) => "artifact snapshot "@ + ulid_text(id.0.0) + " blob does not match its erasable metadata"@,
            CorruptFault::SignalMissing(index, id) => index.text() + " index points to missing signal "@ + ulid_text(id.0.0),
            CorruptFault::SignalHeadMissing(id) => "relation signal "@ + ulid_text(id.0.0) + " has no head"@,
            CorruptFault::SignalRevisionMissing(id, revision) => "relation signal "@ + ulid_text(id.0.0) + " is missing revision "@ + decimal_text(revision),
            CorruptFault::EvaluatorRevisionMissing(id, revision) => "relation evaluator "@ + ulid_text(id.0.0) + " is missing revision "@ + decimal_text(revision),
            CorruptFault::ProfileRevisionMissing(id, revision) => "relation profile "@ + ulid_text(id.0.0) + " is missing revision "@ + decimal_text(revision),
            CorruptFault::PendingMissing(id) => "pending proposal index points to missing "@ + ulid_text(id.0.0),
            CorruptFault::PendingNotPending(id) => "pending proposal index points to non-pending "@ + ulid_text(id.0.0),
            CorruptFault::AwaitingMissing(id) => "awaiting-adjudication index points to missing "@ + ulid_text(id.0.0),
            CorruptFault::AwaitingNotActionable(id) => "awaiting-adjudication index points to non-actionable "@ + ulid_text(id.0.0),
            CorruptFault::RevisionOverflow => "revision counter overflow"@,
            CorruptFault::ProposalRevisionOverflow => "proposal revision overflow"@,
            CorruptFault::SignalRevisionOverflow => "relation signal revision overflow"@,
            CorruptFault::ProfileRevisionOverflow => "relation profile revision overflow"@,
            CorruptFault::EvaluatorRevisionOverflow => "relation evaluator revision overflow"@,
            CorruptFault::PreviewTimeOverflow => "purge preview time overflow"@,
            CorruptFault::IntegerWidth => "expected an eight-byte integer"@,
            CorruptFault::IdKey => "invalid native ID key"@,
            CorruptFault::RecordKey => "invalid record key"@,
            CorruptFault::RecordKeyTag => "unknown record key tag"@,
            CorruptFault::IndexKey(kind) => "invalid "@ + kind.text() + " key"@,
            CorruptFault::EraNotUlid(fault) => "outer store era is not a ULID: "@ + fault.text(),
            CorruptFault::MetadataMissing => "native metadata is missing from a non-pristine store"@,
            CorruptFault::SourceIndexDangling => "proposal source index is dangling"@,
            CorruptFault::SignalPairIndex => "relation signal pair index does not match its current header"@,
            CorruptFault::ReceiptShape => "operation receipt belongs to another operation"@,
        }
    }

    pub fn message(self) -> (r: String)
        ensures
            r@ == self.text(),
    {
        match self {
            CorruptFault::RevisionMissing(record, revision) => String::from_str(record.kind_name()).concat(" ").concat(record.bare().text().as_str()).concat(" is missing ").concat(record.revision_name()).concat("revision ").concat(decimal(revision).as_str()),
            CorruptFault::HeadMissing(record) => String::from_str(record.kind_name()).concat(" ").concat(record.bare().text().as_str()).concat(" has no head"),
            CorruptFault::SnapshotBlobMissing(id) => String::from_str("artifact snapshot ").concat(id.0.text().as_str()).concat(" metadata exists without its blob"),
            CorruptFault::SnapshotBlobMismatch(id) => String::from_str("artifact snapshot ").concat(id.0.text().as_str()).concat(" blob does not match its erasable metadata"),
            CorruptFault::SignalMissing(index, id) => String::from_str(index.name()).concat(" index points to missing signal ").concat(id.0.text().as_str()),
            CorruptFault::SignalHeadMissing(id) => String::from_str("relation signal ").concat(id.0.text().as_str()).concat(" has no head"),
            CorruptFault::SignalRevisionMissing(id, revision) => String::from_str("relation signal ").concat(id.0.text().as_str()).concat(" is missing revision ").concat(decimal(revision).as_str()),
            CorruptFault::EvaluatorRevisionMissing(id, revision) => String::from_str("relation evaluator ").concat(id.0.text().as_str()).concat(" is missing revision ").concat(decimal(revision).as_str()),
            CorruptFault::ProfileRevisionMissing(id, revision) => String::from_str("relation profile ").concat(id.0.text().as_str()).concat(" is missing revision ").concat(decimal(revision).as_str()),
            CorruptFault::PendingMissing(id) => String::from_str("pending proposal index points to missing ").concat(id.0.text().as_str()),
            CorruptFault::PendingNotPending(id) => String::from_str("pending proposal index points to non-pending ").concat(id.0.text().as_str()),
            CorruptFault::AwaitingMissing(id) => String::from_str("awaiting-adjudication index points to missing ").concat(id.0.text().as_str()),
            CorruptFault::AwaitingNotActionable(id) => String::from_str("awaiting-adjudication index points to non-actionable ").concat(id.0.text().as_str()),
            CorruptFault::RevisionOverflow => String::from_str("revision counter overflow"),
            CorruptFault::ProposalRevisionOverflow => String::from_str("proposal revision overflow"),
            CorruptFault::SignalRevisionOverflow => String::from_str("relation signal revision overflow"),
            CorruptFault::ProfileRevisionOverflow => String::from_str("relation profile revision overflow"),
            CorruptFault::EvaluatorRevisionOverflow => String::from_str("relation evaluator revision overflow"),
            CorruptFault::PreviewTimeOverflow => String::from_str("purge preview time overflow"),
            CorruptFault::IntegerWidth => String::from_str("expected an eight-byte integer"),
            CorruptFault::IdKey => String::from_str("invalid native ID key"),
            CorruptFault::RecordKey => String::from_str("invalid record key"),
            CorruptFault::RecordKeyTag => String::from_str("unknown record key tag"),
            CorruptFault::IndexKey(kind) => String::from_str("invalid ").concat(kind.name()).concat(" key"),
            CorruptFault::EraNotUlid(fault) => String::from_str("outer store era is not a ULID: ").concat(fault.name()),
            CorruptFault::MetadataMissing => String::from_str("native metadata is missing from a non-pristine store"),
            CorruptFault::SourceIndexDangling => String::from_str("proposal source index is dangling"),
            CorruptFault::SignalPairIndex => String::from_str("relation signal pair index does not match its current header"),
            CorruptFault::ReceiptShape => String::from_str("operation receipt belongs to another operation"),
        }
    }
}

} // verus!
