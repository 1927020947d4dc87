//! Identifiers and keys, written and read back.
use mmdb::clock::now_ms;
use mmdb::keybytes::{
    artifact_passage_ordinal_key, dependency_from_key, dependency_key, ordinal_from_key, owner_index_from_key,
    pair_from_key, posting_from_key, posting_key, record_index_from_key, relation_signal_owner_index_key,
    relation_signal_pair_key, relation_signal_record_index_key, revision_from_key, revision_key, time_from_key,
    time_key,
};
use mmdb::keys::{
    DependencyKey, OrdinalKey, OwnerIndexKey, PairKey, PostingKey, RecordIndexKey, RevisionKey, TimeKey,
};
use mmdb::reviews::review_request;
use mmdb::{
    Actor, ArtifactSnapshotId, ClaimId, CorruptFault, EraId, EvidenceId, InputFault, KeyUse, MemoryDatabase,
    MemoryError, MemoryResult, NativeMetadata, NewProposalReview, ProposalId, ProposalReviewFinding,
    ProposalReviewVerdict, RecallCaseId, RecordRef, RelationProfileId, RelationSignalId, ReviewFindingCode, Ulid,
    UlidFault, store_era,
};

const SAMPLE: u128 = 0x41414141_41414141_41414141_41414141;

#[test]
fn identifiers_are_read_from_their_text() {
    assert_eq!(Ulid::read("21850M2GA1850M2GA1850M2GA1"), Ok(Ulid(SAMPLE)));
    assert_eq!(Ulid::read("21850m2ga1850m2ga1850m2ga1"), Ok(Ulid(SAMPLE)));
    assert_eq!(Ulid::read("7ZZZZZZZZZZZZZZZZZZZZZZZZZ"), Ok(Ulid(u128::MAX)));
    assert_eq!(Ulid::read("ZZZZZZZZZZZZZZZZZZZZZZZZZZ"), Ok(Ulid(u128::MAX)));
    for value in [0, 1, 31, 32, SAMPLE, u128::MAX] {
        assert_eq!(Ulid::read(&Ulid(value).text()), Ok(Ulid(value)));
    }
    assert_eq!(Ulid::read(""), Err(UlidFault::Length));
    assert_eq!(Ulid::read("2D9RW50MA499CMAGHM6DD42DT"), Err(UlidFault::Length));
    assert_eq!(Ulid::read("2D9RW50MA499CMAGHM6DD42DTPP"), Err(UlidFault::Length));
    for letter in ["I", "L", "O", "U", "i", "l", "o", "u", "[", "-", "@"] {
        assert_eq!(Ulid::read(&format!("2D9RW50{letter}A499CMAGHM6DD42DTP")), Err(UlidFault::Letter));
    }
    let accented = "2D9RW50MA499CMAGHM6DD42D\u{e9}";
    assert_eq!(accented.len(), 26);
    assert_eq!(Ulid::read(accented), Err(UlidFault::Letter));
}

fn refusal<T>(outcome: MemoryResult<T>) -> MemoryError {
    match outcome {
        Ok(_) => panic!("no refusal"),
        Err(error) => error,
    }
}

#[test]
fn a_marker_names_the_era_of_its_store() {
    let era = EraId(Ulid(SAMPLE));
    assert_eq!(store_era(&era.as_ulid().text()), Ok(era));
    let MemoryError::Corrupt(fault) = refusal(store_era("an era")) else { panic!("another refusal") };
    assert_eq!(fault, CorruptFault::EraNotUlid(UlidFault::Length));
    assert_eq!(fault.message(), "outer store era is not a ULID: invalid length");
    let MemoryError::Corrupt(fault) = refusal(store_era("2D9RW50LA499CMAGHM6DD42DTP")) else {
        panic!("another refusal")
    };
    assert_eq!(fault.message(), "outer store era is not a ULID: invalid character");
}

#[test]
fn a_store_opens_in_the_era_of_its_marker() {
    let marker = Ulid(SAMPLE).text();
    let (store, metadata) = MemoryDatabase::open(&marker, None, true, Ulid(1), Ulid(2)).unwrap();
    assert_eq!(store.era_id(), EraId(Ulid(SAMPLE)));
    assert_eq!(metadata.store_era_id, marker);
    let (again, kept) = MemoryDatabase::open(&marker, Some(metadata.clone()), false, Ulid(3), Ulid(4)).unwrap();
    assert_eq!(again.era_id(), store.era_id());
    assert_eq!(kept, metadata);

    assert_eq!(
        refusal(MemoryDatabase::open("an era", None, false, Ulid(1), Ulid(2))),
        MemoryError::Corrupt(CorruptFault::EraNotUlid(UlidFault::Length))
    );
    assert_eq!(
        refusal(MemoryDatabase::open(&marker, None, false, Ulid(1), Ulid(2))),
        MemoryError::Corrupt(CorruptFault::MetadataMissing)
    );
    let other = NativeMetadata { store_era_id: Ulid(5).text(), digest_key: [7; 32] };
    assert_eq!(
        refusal(MemoryDatabase::open(&marker, Some(other), true, Ulid(1), Ulid(2))),
        MemoryError::StoreEraMismatch { outer: marker, internal: Ulid(5).text() }
    );
}

fn refused<T>(read: impl Fn(&[u8]) -> MemoryResult<T>, key: &[u8], usage: KeyUse) {
    let mut longer = key.to_vec();
    longer.push(0);
    for bytes in [&longer[..], &key[..key.len() - 1], &[]] {
        assert_eq!(refusal(read(bytes)), MemoryError::Corrupt(CorruptFault::IndexKey(usage)));
    }
}

#[test]
fn keys_are_read_back_and_others_are_refused() {
    let claim = RecordRef::Claim(ClaimId(Ulid(9)));
    let evidence = RecordRef::Evidence(EvidenceId(Ulid(SAMPLE)));

    let key = revision_key(Ulid(SAMPLE), u64::MAX - 1);
    assert_eq!(revision_from_key(&key), Ok(RevisionKey { id: Ulid(SAMPLE), revision: u64::MAX - 1 }));
    refused(revision_from_key, &key, KeyUse::Revision);

    let key = artifact_passage_ordinal_key(ArtifactSnapshotId(Ulid(3)), 0x0102_0304);
    assert_eq!(
        ordinal_from_key(&key),
        Ok(OrdinalKey { snapshot: ArtifactSnapshotId(Ulid(3)), ordinal: 0x0102_0304 })
    );
    refused(ordinal_from_key, &key, KeyUse::Ordinal);

    let key = relation_signal_pair_key(RelationProfileId(Ulid(4)), claim, evidence);
    assert_eq!(
        pair_from_key(&key),
        Ok(PairKey { profile: RelationProfileId(Ulid(4)), from: claim, to: evidence })
    );
    refused(pair_from_key, &key, KeyUse::Pair);

    let key = relation_signal_record_index_key(evidence, RelationSignalId(Ulid(5)));
    assert_eq!(
        record_index_from_key(&key, KeyUse::TraceRecord),
        Ok(RecordIndexKey { record: evidence, id: Ulid(5) })
    );
    refused(|bytes| record_index_from_key(bytes, KeyUse::SignalRecord), &key, KeyUse::SignalRecord);

    let key = relation_signal_owner_index_key(Ulid(6), RelationSignalId(Ulid(7)));
    assert_eq!(
        owner_index_from_key(&key, KeyUse::SignalOwner),
        Ok(OwnerIndexKey { owner: Ulid(6), id: Ulid(7) })
    );
    refused(|bytes| owner_index_from_key(bytes, KeyUse::TraceOwner), &key, KeyUse::TraceOwner);

    let key = dependency_key(claim, evidence);
    assert_eq!(dependency_from_key(&key), Ok(DependencyKey { source: claim, dependent: evidence }));
    refused(dependency_from_key, &key, KeyUse::Dependency);
    let mut mistagged = key;
    mistagged[17] = 0x0a;
    assert_eq!(dependency_from_key(&mistagged), Err(MemoryError::Corrupt(CorruptFault::RecordKeyTag)));

    let mut hash = [0u8; 32];
    for i in 0..32 {
        hash[i] = i as u8 + 1;
    }
    let key = posting_key(2, &hash, claim);
    assert_eq!(posting_from_key(&key), Ok(PostingKey { domain: 2, hash, record: claim }));
    refused(posting_from_key, &key, KeyUse::Posting);

    for observed_at_ms in [i64::MIN, -1, 0, 1, i64::MAX] {
        let key = time_key(observed_at_ms, evidence);
        assert_eq!(time_from_key(&key), Ok(TimeKey { observed_at_ms, record: evidence }));
        refused(time_from_key, &key, KeyUse::Time);
    }
}

#[test]
fn a_key_that_is_refused_is_told_by_its_use() {
    for (usage, words) in [
        (KeyUse::Dependency, "invalid dependency key"),
        (KeyUse::Posting, "invalid lexical posting key"),
        (KeyUse::Time, "invalid observed-time key"),
        (KeyUse::SignalRecord, "invalid relation-signal record dependency key"),
        (KeyUse::SignalOwner, "invalid relation-signal owner dependency key"),
        (KeyUse::TraceRecord, "invalid activation-trace record dependency key"),
        (KeyUse::TraceOwner, "invalid activation-trace owner dependency key"),
    ] {
        assert_eq!(CorruptFault::IndexKey(usage).message(), words);
    }
}

#[test]
fn a_user_is_refused_before_a_review_is_looked_at() {
    let finding = || ProposalReviewFinding {
        code: ReviewFindingCode::EvidenceInsufficient,
        change_index: None,
        pins: Vec::new(),
    };
    let review = NewProposalReview {
        proposal_id: ProposalId(Ulid(1)),
        proposal_revision: 1,
        recall_case_id: RecallCaseId(Ulid(2)),
        recall_case_revision: 1,
        verdict: ProposalReviewVerdict::Reject,
        findings: (0..10_000).map(|_| finding()).collect(),
    };
    assert_eq!(refusal(review_request(Actor::User, &review)), MemoryError::Unauthorized);
    assert_eq!(
        refusal(review_request(Actor::System, &review)),
        MemoryError::InvalidInput(InputFault::ReviewFindingCount)
    );
}

#[test]
fn the_clock_counts_from_the_epoch() {
    assert!(now_ms() > 1_500_000_000_000);
    assert!(now_ms() < 100_000_000_000_000);
}
