//! Texts, identifiers, digests and keys.
use std::collections::BTreeSet;

use mmdb::bytes::{Precedence, be_bytes, be_number, weigh_bytes};
use mmdb::clock::{Fresh, clamp_millis, now_ms};
use mmdb::context::{OperationContext, TemporalFacts};
use mmdb::digest::{
    EXACT_DOMAIN, TERM_DOMAIN, append_framed, artifact_snapshot_mutation_digest, index_hash,
    mutation_digest, same_digest,
};
use mmdb::fault::{CorruptFault, InputFault, MemoryError, TextField};
use mmdb::ids::{
    ArtifactSnapshotId, ClaimId, EvidenceId, OperationId, ProposalId, RelationProfileId, Ulid,
};
use mmdb::keybytes::{
    artifact_passage_ordinal_key, decode_u64, dependency_key, encode_u64, id_key, ordered_time,
    posting_key, record_from_key, record_key, relation_signal_pair_key, revision_key, time_key,
    ulid_from_id_key,
};
use mmdb::metadata::{MEMORY_STORE_FORMAT_ID, settle_metadata};
use mmdb::rules::{
    MAX_TEXT_BYTES, are_stated_by_user, is_user_domain, require_active_revision,
    require_artifact_actor, source_is_admissible, validate_claim_activation,
    validate_exact_bounded_text, validate_relation_activation, validate_text,
};
use mmdb::text::{byte_len, is_cjk, letters, normalize_exact, text_bytes, tokenize, trim};
use mmdb::wordlist::{enter_text, lists_text, same_text};
use mmdb::{Actor, ClaimDomain, EvidenceClass, RecordRef, RecordState, RelationKind};

#[test]
fn identifiers_are_written_in_base_thirty_two() {
    assert_eq!(Ulid(0).text(), "00000000000000000000000000");
    assert_eq!(Ulid(u128::MAX).text(), "7ZZZZZZZZZZZZZZZZZZZZZZZZZ");
    assert_eq!(Ulid(31).text(), "0000000000000000000000000Z");
    assert_eq!(Ulid(32).text(), "00000000000000000000000010");
    let drawn = Ulid::new();
    assert_eq!(drawn.text(), ulid::Ulid(drawn.0).to_string());
    assert_ne!(Ulid::new(), Ulid::new());
    assert_eq!(EvidenceId(Ulid(5)).as_ulid(), Ulid(5));
}

#[test]
fn times_and_identifiers_are_drawn_together() {
    let before = now_ms();
    let fresh = Fresh::draw(3);
    assert_eq!(fresh.ids.len(), 3);
    assert!(fresh.recorded_at_ms >= before);
    assert!(before > 1_600_000_000_000);
    let distinct: BTreeSet<u128> = fresh.ids.iter().map(|id| id.0).collect();
    assert_eq!(distinct.len(), 3);
    assert_eq!(clamp_millis(17), 17);
    assert_eq!(clamp_millis(u128::MAX), i64::MAX);
}

#[test]
fn texts_are_trimmed_and_normalized() {
    assert_eq!(trim("\t a b \u{3000}\n"), "a b");
    assert_eq!(trim("   "), "");
    assert_eq!(normalize_exact("  The\tQuick \u{a0} FOX\n"), "the quick fox");
    assert_eq!(normalize_exact("\u{130}"), "i\u{307}");
    assert_eq!(normalize_exact(" \n "), "");
    assert_eq!(letters("h\u{e9}"), vec!['h', '\u{e9}']);
    assert_eq!(byte_len("h\u{e9}"), 3);
    assert_eq!(text_bytes("h\u{e9}"), "h\u{e9}".as_bytes());
}

#[test]
fn words_signs_and_pairs_of_signs_are_terms() {
    assert_eq!(tokenize("Foo_1, bar-BAZ"), vec!["foo_1", "bar", "baz"]);
    assert_eq!(
        tokenize("rust\u{8a9e}\u{6587} x"),
        vec!["rust", "\u{8a9e}", "\u{6587}", "\u{8a9e}\u{6587}", "x"]
    );
    assert_eq!(tokenize("!?"), Vec::<String>::new());
    assert_eq!(tokenize(&"a".repeat(300))[0].len(), 128);
    assert!(is_cjk('\u{6587}'));
    assert!(!is_cjk('\u{3042}'));
    assert!(!is_cjk('a'));
}

#[test]
fn word_lists_are_sorted_and_distinct() {
    let mut words = Vec::new();
    for word in ["b", "a", "c", "a"] {
        enter_text(&mut words, word.to_string());
    }
    assert_eq!(words, vec!["a", "b", "c"]);
    assert!(lists_text(&words, "b"));
    assert!(!lists_text(&words, "d"));
    assert!(same_text("x", "x"));
    assert!(!same_text("x", "xx"));
}

#[test]
fn texts_are_bounded_by_their_bytes() {
    assert_eq!(validate_text("  a ", TextField::ClaimProposition), Ok("a".to_string()));
    assert_eq!(
        validate_text(" \n", TextField::ClaimProposition),
        Err(MemoryError::InvalidInput(InputFault::EmptyText(TextField::ClaimProposition)))
    );
    let long = "\u{e9}".repeat(MAX_TEXT_BYTES / 2);
    assert!(validate_text(&long, TextField::EvidenceText).is_ok());
    let longer = format!("{long}x");
    assert_eq!(
        validate_text(&longer, TextField::EvidenceText),
        Err(MemoryError::InvalidInput(InputFault::TextTooLong(TextField::EvidenceText, MAX_TEXT_BYTES)))
    );
    assert_eq!(validate_exact_bounded_text("ab", TextField::ArtifactLabel, 2), Ok(()));
    assert_eq!(
        validate_exact_bounded_text("abc", TextField::ArtifactLabel, 2),
        Err(MemoryError::InvalidInput(InputFault::TextTooLong(TextField::ArtifactLabel, 2)))
    );
}

#[test]
fn faults_say_what_is_wrong() {
    let field = TextField::EvidenceText;
    let empty = InputFault::EmptyText(field).message();
    assert_eq!(empty, format!("{} cannot be empty", field.name()));
    let long = InputFault::TextTooLong(field, 1024).message();
    assert!(long.contains("1024"));
    let reused = InputFault::PassageOrdinalTaken(ArtifactSnapshotId(Ulid(32)), 40).message();
    assert!(reused.contains("00000000000000000000000010"));
    assert!(reused.contains("40"));
    assert!(CorruptFault::RevisionMissing(RecordRef::Claim(ClaimId(Ulid(1))), 9).message().contains('9'));
    assert_eq!(RelationKind::Supersedes.name(), "Supersedes");
}

#[test]
fn digests_are_keyed_by_domain() {
    let key = [3u8; 32];
    assert_eq!(index_hash(&key, TERM_DOMAIN, b"fox"), *blake3::keyed_hash(&key, b"\x01fox").as_bytes());
    assert_ne!(index_hash(&key, TERM_DOMAIN, b"fox"), index_hash(&key, EXACT_DOMAIN, b"fox"));
    let framed = b"{\"mutation\":\"retract\",\"actor\":\"User\",\"input\":[1,2]}";
    assert_eq!(mutation_digest(&key, "retract", Actor::User, b"[1,2]"), *blake3::keyed_hash(&key, framed).as_bytes());
    let first = artifact_snapshot_mutation_digest(&key, Actor::User, b"ab", b"c");
    assert_ne!(first, artifact_snapshot_mutation_digest(&key, Actor::User, b"a", b"bc"));
    assert_ne!(first, artifact_snapshot_mutation_digest(&key, Actor::Operator, b"ab", b"c"));
    assert!(same_digest(&[1; 32], &[1; 32]));
    assert!(!same_digest(&[1; 32], &[2; 32]));
    let mut bytes = vec![9];
    append_framed(&mut bytes, b"ab");
    assert_eq!(bytes.len(), 11);
    assert_eq!(bytes[bytes.len() - 3..], [2, b'a', b'b']);
}

#[test]
fn numbers_are_written_big_end_first() {
    assert_eq!(be_bytes(0x0102, 4), vec![0, 0, 1, 2]);
    assert_eq!(be_number(&[1, 2]), 0x0102);
    assert_eq!(encode_u64(258), vec![0, 0, 0, 0, 0, 0, 1, 2]);
    assert_eq!(decode_u64(&encode_u64(u64::MAX)), Ok(u64::MAX));
    assert_eq!(decode_u64(&[1, 2]), Err(MemoryError::Corrupt(CorruptFault::IntegerWidth)));
    assert!(matches!(weigh_bytes(b"ab", b"b"), Precedence::Before));
    assert!(matches!(weigh_bytes(b"ab", b"a"), Precedence::After));
    assert!(matches!(weigh_bytes(b"ab", b"ab"), Precedence::Same));
}

#[test]
fn keys_read_back() {
    let id = Ulid::new();
    assert_eq!(ulid_from_id_key(&id_key(id)), Ok(id));
    assert_eq!(ulid_from_id_key(&[0; 15]), Err(MemoryError::Corrupt(CorruptFault::IdKey)));
    let record = RecordRef::Proposal(ProposalId(id));
    assert_eq!(record_from_key(&record_key(record)), Ok(record));
    assert_eq!(record_from_key(&[5; 16]), Err(MemoryError::Corrupt(CorruptFault::RecordKey)));
    assert_eq!(record_from_key(&[0; 17]), Err(MemoryError::Corrupt(CorruptFault::RecordKeyTag)));
    assert_eq!(revision_key(id, 3).len(), 24);
    assert_eq!(artifact_passage_ordinal_key(ArtifactSnapshotId(id), 3).len(), 20);
}

#[test]
fn keys_sort_as_what_they_stand_for() {
    assert!(ordered_time(-1) < ordered_time(0));
    assert!(ordered_time(i64::MIN) < ordered_time(-1));
    assert_eq!(ordered_time(0), 1 << 63);
    let record = RecordRef::Claim(ClaimId(Ulid(1)));
    assert!(time_key(-5, record) < time_key(4, record));
    assert!(revision_key(Ulid(1), 255) < revision_key(Ulid(1), 256));
    assert!(revision_key(Ulid(1), u64::MAX) < revision_key(Ulid(2), 0));
    let other = RecordRef::Evidence(EvidenceId(Ulid(1)));
    let key = dependency_key(other, record);
    assert_eq!(key[..17], record_key(other)[..]);
    assert_eq!(key[17..], record_key(record)[..]);
    let posting = posting_key(TERM_DOMAIN, &[7; 32], record);
    assert_eq!(posting[0], TERM_DOMAIN);
    assert_eq!(posting[1..33], [7; 32]);
    let pair = relation_signal_pair_key(RelationProfileId(Ulid(9)), other, record);
    assert_ne!(pair, relation_signal_pair_key(RelationProfileId(Ulid(9)), record, other));
}

#[test]
fn time_spans_are_half_open() {
    let mut facts = TemporalFacts::observed_at(7);
    assert_eq!(facts.observed_at_ms, 7);
    assert!(facts.contains_valid_time(i64::MIN));
    facts.valid_from_ms = Some(10);
    facts.valid_to_ms = Some(20);
    assert_eq!(facts.validate(), Ok(()));
    assert!(facts.contains_valid_time(10));
    assert!(!facts.contains_valid_time(20));
    assert!(!facts.contains_valid_time(9));
    facts.valid_to_ms = Some(10);
    assert_eq!(facts.validate(), Err(MemoryError::InvalidInput(InputFault::ValidTimeInterval)));
    assert!(!facts.contains_valid_time(10));
}

#[test]
fn people_and_rules_decide_what_is_activated() {
    assert!(is_user_domain(ClaimDomain::UserPreference));
    assert!(source_is_admissible(EvidenceClass::UserAssertion, ClaimDomain::UserPreference));
    assert!(!source_is_admissible(EvidenceClass::AssistantUtterance, ClaimDomain::UserPreference));
    assert!(are_stated_by_user(&vec![EvidenceClass::UserAssertion, EvidenceClass::UserCorrection]));
    assert!(!are_stated_by_user(&vec![EvidenceClass::UserAssertion, EvidenceClass::ToolObservation]));
    let stated = vec![EvidenceClass::UserAssertion];
    assert_eq!(validate_claim_activation(Actor::User, ClaimDomain::UserPreference, &stated), Ok(()));
    assert_eq!(
        validate_claim_activation(Actor::Assistant, ClaimDomain::UserPreference, &stated),
        Err(MemoryError::Unauthorized)
    );
    assert_eq!(validate_relation_activation(Actor::Assistant, &stated), Err(MemoryError::Unauthorized));
    assert_eq!(require_artifact_actor(Actor::Assistant), Err(MemoryError::Unauthorized));
    assert_eq!(require_artifact_actor(Actor::Operator), Ok(()));
    assert_eq!(require_active_revision(RecordState::Active, 2, 2), Ok(()));
    assert_eq!(
        require_active_revision(RecordState::Active, 3, 2),
        Err(MemoryError::RevisionConflict { expected: 2, actual: 3 })
    );
}

#[test]
fn a_store_is_settled_once() {
    let era = Ulid(5).text();
    let first = settle_metadata(None, &era, true, Ulid(1), Ulid(2)).unwrap();
    assert_eq!(first.digest_key[15], 1);
    assert_eq!(first.digest_key[31], 2);
    let again = settle_metadata(Some(first.clone()), &era, true, Ulid(8), Ulid(9)).unwrap();
    assert_eq!(again, first);
    assert_eq!(
        settle_metadata(None, &era, false, Ulid(1), Ulid(2)),
        Err(MemoryError::Corrupt(CorruptFault::MetadataMissing))
    );
    assert_eq!(MEMORY_STORE_FORMAT_ID, "mmdb-native-memory-v1");
    let context = OperationContext::new(Actor::User);
    assert_eq!(context.actor, Actor::User);
    assert_ne!(context.id, OperationId(Ulid(0)));
}
