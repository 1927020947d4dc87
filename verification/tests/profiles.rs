//! Profiles of a memory store and the projections made under them.
use mmdb::ids::Ulid;
use mmdb::profiles::{
    ContentForm, DEFAULT_EVIDENCE_LIMIT, DEFAULT_WEIGHT_BITS, MAX_TURN_THRESHOLD,
    MIN_DREAM_BYTES, PROFILE_VERSION, ProfileFault, find_profile, passes_over,
    pending_projection, projection_key, replace_profile, resolve_lawyer, retried_profile, searchable_projections,
    select_vector_profiles, supports, tenant_ulid_key, unruled_status, validate_profile,
};
use mmdb::projecting::{
    EmbeddingReply, PreparedProfile, await_projection, begin_projection, lasting_embeddings, sort_out,
};
use mmdb::records::graph::RecallStatus;
use mmdb::records::profile::{
    DreamProfile, EmbeddingDistance, EmbeddingProfile, LawyerFailureMode, LawyerProfile,
    MemoryProfile, ProjectionState, SupportedContent,
};

fn embedding(id: &str, model: &str) -> EmbeddingProfile {
    EmbeddingProfile {
        id: id.to_string(),
        client_id: "client".to_string(),
        model: model.to_string(),
        model_revision: "1".to_string(),
        dimension: 3,
        distance: EmbeddingDistance::Cosine,
        supported_content: vec![SupportedContent::Text],
        supported_mime_types: Vec::new(),
        weight_bits: DEFAULT_WEIGHT_BITS,
    }
}

fn dreamer() -> DreamProfile {
    DreamProfile {
        id: "dream".to_string(),
        revision: "1".to_string(),
        client_id: "client".to_string(),
        agent_id: "agent".to_string(),
        model_id: "model".to_string(),
        prompt_version: "1".to_string(),
        response_schema: String::new(),
        turn_end_threshold: MAX_TURN_THRESHOLD,
        max_nodes: 1,
        max_input_bytes: MIN_DREAM_BYTES,
    }
}

fn lawyer(id: &str) -> LawyerProfile {
    LawyerProfile {
        id: id.to_string(),
        client_id: "client".to_string(),
        agent_id: "agent".to_string(),
        model_id: "model".to_string(),
        prompt_version: "1".to_string(),
        rule_set: "rules".to_string(),
        evidence_limit: DEFAULT_EVIDENCE_LIMIT,
        failure_mode: LawyerFailureMode::ReturnDeterministic,
    }
}

fn profile(embeddings: Vec<EmbeddingProfile>) -> MemoryProfile {
    MemoryProfile { embedding_profiles: embeddings, ..MemoryProfile::default() }
}

#[test]
fn the_default_profile_is_empty_and_sound() {
    let default = MemoryProfile::default();
    assert_eq!(default.version, PROFILE_VERSION);
    assert_eq!(default.revision, 1);
    assert_eq!(default.embedding_profiles.len(), 0);
    assert!(default.dreamer.is_none());
    assert!(default.lawyer.is_none());
    assert_eq!(validate_profile(&default), Ok(()));
    assert_eq!(DEFAULT_WEIGHT_BITS, 1.0f32.to_bits());
}

#[test]
fn profiles_are_checked_part_by_part() {
    let mut other = MemoryProfile::default();
    other.version = 2;
    assert_eq!(validate_profile(&other), Err(ProfileFault::Version { version: 2 }));

    let sound = profile(vec![embedding("a", "x"), embedding("b", "y")]);
    assert_eq!(validate_profile(&sound), Ok(()));
    let same_id = profile(vec![embedding("a", "x"), embedding("a", "y")]);
    assert_eq!(validate_profile(&same_id), Err(ProfileFault::DuplicateId { index: 1 }));
    let same_model = profile(vec![embedding("a", "x"), embedding("b", "x")]);
    assert_eq!(validate_profile(&same_model), Err(ProfileFault::DuplicateModel { index: 1 }));

    for weight in [-1.0f32, f32::NAN, f32::INFINITY] {
        let mut heavy = embedding("a", "x");
        heavy.weight_bits = weight.to_bits();
        assert_eq!(validate_profile(&profile(vec![heavy])), Err(ProfileFault::Embedding { index: 0 }));
    }
    let mut flat = embedding("a", "x");
    flat.dimension = 0;
    assert_eq!(validate_profile(&profile(vec![flat])), Err(ProfileFault::Embedding { index: 0 }));
    let mut dotted = embedding("a", "x");
    dotted.distance = EmbeddingDistance::Dot;
    assert_eq!(validate_profile(&profile(vec![dotted])), Err(ProfileFault::Embedding { index: 0 }));

    let mut dreaming = MemoryProfile::default();
    dreaming.dreamer = Some(dreamer());
    assert_eq!(validate_profile(&dreaming), Ok(()));
    dreaming.dreamer = Some(DreamProfile { turn_end_threshold: MAX_TURN_THRESHOLD + 1, ..dreamer() });
    assert_eq!(validate_profile(&dreaming), Err(ProfileFault::Dreamer));
    dreaming.dreamer = Some(DreamProfile { max_input_bytes: MIN_DREAM_BYTES - 1, ..dreamer() });
    assert_eq!(validate_profile(&dreaming), Err(ProfileFault::Dreamer));

    let mut ruled = MemoryProfile::default();
    ruled.lawyer = Some(lawyer("law"));
    assert_eq!(validate_profile(&ruled), Ok(()));
    ruled.lawyer = Some(LawyerProfile { evidence_limit: 0, ..lawyer("law") });
    assert_eq!(validate_profile(&ruled), Err(ProfileFault::Lawyer));
}

#[test]
fn profile_revisions_only_grow() {
    let mut current = MemoryProfile::default();
    current.revision = 4;
    let mut offered = profile(vec![embedding("a", "x")]);
    assert_eq!(replace_profile(&mut current, offered.clone()), Ok(()));
    assert_eq!(current.revision, 5);
    assert_eq!(current.embedding_profiles.len(), 1);
    offered.revision = 9;
    assert_eq!(replace_profile(&mut current, offered.clone()), Ok(()));
    assert_eq!(current.revision, 10);
    offered.version = 3;
    assert_eq!(replace_profile(&mut current, offered), Err(ProfileFault::Version { version: 3 }));
    assert_eq!(current.revision, 10);
    current.revision = u64::MAX;
    assert_eq!(replace_profile(&mut current, MemoryProfile::default()), Ok(()));
    assert_eq!(current.revision, u64::MAX);
}

#[test]
fn embedding_profiles_take_the_content_they_name() {
    let mut pictures = embedding("a", "x");
    pictures.supported_content = vec![SupportedContent::Blob];
    let blob = |mime: &str| ContentForm::Blob { mime: mime.to_string() };
    assert!(supports(&pictures, &blob("image/png")));
    pictures.supported_mime_types = vec!["image/jpeg".to_string()];
    assert!(!supports(&pictures, &blob("image/png")));
    assert!(supports(&pictures, &blob("image/jpeg")));
    assert!(!supports(&pictures, &ContentForm::Text));
    assert!(!supports(&pictures, &ContentForm::Json));
    assert!(supports(&embedding("a", "x"), &ContentForm::Text));
}

#[test]
fn text_queries_go_through_text_profiles() {
    let mut pictures = embedding("pictures", "p");
    pictures.supported_content = vec![SupportedContent::Blob];
    let all = profile(vec![embedding("a", "x"), pictures, embedding("b", "y")]);
    assert_eq!(select_vector_profiles(&all, &Vec::new()), Ok(vec![0, 2]));
    assert_eq!(select_vector_profiles(&all, &vec!["b".to_string(), "a".to_string()]), Ok(vec![2, 0]));
    assert_eq!(
        select_vector_profiles(&all, &vec!["a".to_string(), "none".to_string()]),
        Err(ProfileFault::Unknown { index: 1 })
    );
    assert_eq!(
        select_vector_profiles(&all, &vec!["pictures".to_string()]),
        Err(ProfileFault::NotForText { index: 0 })
    );
    assert_eq!(retried_profile(&all.embedding_profiles, "b", &ContentForm::Text), Ok(2));
    assert_eq!(
        retried_profile(&all.embedding_profiles, "c", &ContentForm::Text),
        Err(ProfileFault::Unknown { index: 0 })
    );
    assert_eq!(
        retried_profile(&all.embedding_profiles, "pictures", &ContentForm::Text),
        Err(ProfileFault::Content)
    );
    assert_eq!(find_profile(&all.embedding_profiles, "b"), Some(2));
    assert_eq!(find_profile(&all.embedding_profiles, "c"), None);
}

#[test]
fn lawyers_are_found_by_name() {
    let mut ruled = MemoryProfile::default();
    assert!(resolve_lawyer(&ruled, "law").is_none());
    ruled.lawyer = Some(lawyer("law"));
    assert_eq!(resolve_lawyer(&ruled, "law").map(|found| found.id.clone()), Some("law".to_string()));
    assert!(resolve_lawyer(&ruled, "other").is_none());
    assert!(passes_over(&lawyer("law")));
    let strict = LawyerProfile { failure_mode: LawyerFailureMode::FailClosed, ..lawyer("law") };
    assert!(!passes_over(&strict));
    assert_eq!(LawyerFailureMode::default(), LawyerFailureMode::ReturnDeterministic);
}

#[test]
fn projections_end_ready_or_failed() {
    let mut status = pending_projection(Ulid(7), 2, "a", 0, 10);
    assert_eq!(status.state, ProjectionState::Pending);
    assert_eq!(status.node_revision, 2);
    assert_eq!(status.last_error, None);
    status.fail("broken".to_string(), 20);
    assert_eq!(status.state, ProjectionState::Failed);
    assert_eq!(status.last_error, Some("broken".to_string()));
    assert_eq!(status.updated_at_ms, 20);
    let mut status = pending_projection(Ulid(7), 2, "a", 1, 20);
    assert_eq!(status.attempts, 1);
    status.succeed(3, Some("text".to_string()), 30);
    assert_eq!(status.state, ProjectionState::Ready);
    assert_eq!(status.node_revision, 3);
    assert_eq!(status.last_error, None);
    let in_use = profile(vec![embedding("a", "x")]);
    let mut stray = pending_projection(Ulid(7), 2, "gone", 0, 10);
    stray.succeed(3, Some("stray".to_string()), 30);
    let waiting = pending_projection(Ulid(7), 2, "a", 0, 10);
    assert_eq!(searchable_projections(&in_use, &vec![status, stray, waiting]), vec!["text".to_string()]);
}

#[test]
fn projection_keys_tell_tenants_memories_and_profiles_apart() {
    let key = tenant_ulid_key(0x0102_0304, Ulid(0x0a));
    assert_eq!(key.len(), 20);
    assert_eq!(key[..4], [1, 2, 3, 4]);
    assert_eq!(key[19], 0x0a);
    let mut projected = key.clone();
    projected.extend_from_slice(b"\xc3\xa9");
    assert_eq!(projection_key(0x0102_0304, Ulid(0x0a), "\u{e9}"), projected);
    assert_ne!(projection_key(1, Ulid(2), "a"), projection_key(1, Ulid(2), "b"));
}

#[test]
fn missing_clients_degrade_an_answer() {
    assert_eq!(unruled_status(&Vec::new()), RecallStatus::Deterministic);
    assert_eq!(
        unruled_status(&vec!["one".to_string(), "two".to_string()]),
        RecallStatus::Degraded { reason: "one; two".to_string() }
    );
}

#[test]
fn replies_are_told() {
    let plain = embedding("e", "m");
    assert_eq!(
        EmbeddingReply::Unregistered.fault(&plain),
        Some("embedding client `client` is not registered".to_string())
    );
    assert_eq!(
        EmbeddingReply::OtherModel.fault(&plain),
        Some("legacy embedder does not provide model `m`".to_string())
    );
    assert_eq!(EmbeddingReply::Failed("broken".to_string()).fault(&plain), Some("broken".to_string()));
    assert_eq!(EmbeddingReply::Vector { length: 3, finite: true }.fault(&plain), None);
    assert_eq!(
        EmbeddingReply::Vector { length: 3, finite: false }.fault(&plain),
        Some("invalid embedding output: expected 3 finite values, got 3".to_string())
    );
    assert_eq!(
        EmbeddingReply::Vector { length: 12, finite: true }.fault(&plain),
        Some("invalid embedding output: expected 3 finite values, got 12".to_string())
    );
}

#[test]
fn attempts_are_counted() {
    let plain = embedding("e", "m");
    let node = Ulid(5);
    let awaited = await_projection(node, 1, &plain, &None, 10);
    assert_eq!(awaited.attempts, 0);
    let first = begin_projection(node, 1, &plain, &Some(awaited), 20);
    assert_eq!(first.attempts, 1);
    assert_eq!(first.profile_id, "e");
    let mut second = begin_projection(node, 2, &plain, &Some(first), 30);
    assert_eq!((second.attempts, second.node_revision, second.updated_at_ms), (2, 2, 30));
    let profile = profile(vec![plain]);

    second.settle(Err("broken".to_string()), 40);
    assert_eq!(second.state, ProjectionState::Failed);
    assert_eq!(second.last_error, Some("broken".to_string()));
    assert_eq!(searchable_projections(&profile, &vec![second.clone()]), Vec::<String>::new());
    let again = await_projection(node, 2, &embedding("e", "m"), &Some(second), 50);
    assert_eq!((again.attempts, again.last_error.clone()), (2, None));
    let mut made = begin_projection(node, 2, &embedding("e", "m"), &Some(again), 60);
    made.settle(Ok((3, Some("words".to_string()))), 70);
    assert_eq!((made.state, made.node_revision, made.attempts), (ProjectionState::Ready, 3, 3));
    assert_eq!(searchable_projections(&profile, &vec![made]), vec!["words".to_string()]);
    assert_eq!(begin_projection(node, 1, &embedding("e", "m"), &None, 10).attempts, 1);
}

#[test]
fn one_embedding_of_a_model_lasts() {
    let models = vec!["a".to_string(), "b".to_string(), "a".to_string(), "c".to_string()];
    assert_eq!(lasting_embeddings(&models, "a"), vec![1, 3]);
    assert_eq!(lasting_embeddings(&models, "d"), vec![0, 1, 2, 3]);
}

#[test]
fn changed_profiles_are_sorted_out() {
    let known = |id: &str, fingerprint: &str| PreparedProfile {
        profile_id: id.to_string(),
        fingerprint: fingerprint.to_string(),
    };
    let in_use = vec![known("e", "1"), known("f", "2")];
    let (kept, said) = sort_out(&in_use, &vec![known("f", "2"), known("e", "2"), known("g", "1"), known("e", "1")]);
    assert_eq!(kept, vec![0, 3]);
    assert_eq!(
        said,
        vec![
            "embedding profile `e` changed while preparing recall".to_string(),
            "embedding profile `g` changed while preparing recall".to_string(),
        ]
    );
}
