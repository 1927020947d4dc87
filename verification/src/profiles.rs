//! Memory profiles: which embeddings, dreamer and lawyer a store works with, and how far
//! its projections have come.
use vstd::prelude::*;
use crate::bytes::{append_bytes, be, be_bytes, be_len, be_value_of_be, parts_agree, span_values};
use crate::ids::Ulid;
use crate::keybytes::{id_bytes, id_key};
use crate::records::graph::{RecallStatus, RecallStatusModel};
use crate::records::profile::{
    DreamProfileModel, EmbeddingDistance, EmbeddingProfile, EmbeddingProfileModel,
    LawyerFailureMode, LawyerProfile, LawyerProfileModel, MemoryProfile, MemoryProfileModel,
    ProjectionState, ProjectionStatus, ProjectionStatusModel, SupportedContent,
};
use crate::table::{opt_view, views};
use crate::text::{text_bytes, utf8};
use crate::wordlist::{lists_text, same_text, utf8_is_injective};

verus! {

/// The version of profiles.
pub const PROFILE_VERSION: u32 = 1;

/// The bits of the weight one.
pub const DEFAULT_WEIGHT_BITS: u32 = 0x3f80_0000;

/// How many candidates a lawyer is shown by default.
pub const DEFAULT_EVIDENCE_LIMIT: usize = 50;

/// After how many turns a dreamer is called by default.
pub const DEFAULT_TURN_THRESHOLD: usize = 32;

/// How many memories a dreamer is shown by default.
pub const DEFAULT_DREAM_NODES: usize = 128;

/// How many bytes a dreamer is shown by default.
pub const DEFAULT_DREAM_BYTES: usize = 262_144;

/// The most turns after which a dreamer is called.
pub const MAX_TURN_THRESHOLD: usize = 128;

/// The least number of bytes that a dreamer is shown.
pub const MIN_DREAM_BYTES: usize = 4096;

/// Why a profile is refused. An embedding profile is named by its place.
#[derive(Clone, Copy, Debug, PartialEq, Eq, Structural)]
pub enum ProfileFault {
    /// There are no profiles of that version.
    Version { version: u32 },
    /// The embedding profile is incomplete, or asks for what is not offered.
    Embedding { index: usize },
    /// Another embedding profile goes by the same name.
    DuplicateId { index: usize },
    /// Another embedding profile uses the same model.
    DuplicateModel { index: usize },
    /// The dreamer profile is incomplete.
    Dreamer,
    /// The lawyer profile is incomplete.
    Lawyer,
    /// No profile goes by the requested name.
    Unknown { index: usize },
    /// The profile cannot embed text.
    NotForText { index: usize },
    /// The profile does not take the content of the memory.
    Content,
}

impl Default for MemoryProfile {
    fn default() -> (r: Self)
        ensures
            r@ == (MemoryProfileModel {
                version: PROFILE_VERSION,
                revision: 1,
                embedding_profiles: Seq::empty(),
                dreamer: None,
                lawyer: None,
            }),
    {
        let r = MemoryProfile {
            version: PROFILE_VERSION,
            revision: 1,
            embedding_profiles: Vec::new(),
            dreamer: None,
            lawyer: None,
        };
        assert(r@.embedding_profiles =~= Seq::<EmbeddingProfileModel>::empty());
        r
    }
}

/// Whether bits stand for a number that is finite and not negative.
pub open spec fn sound_weight(bits: u32) -> bool {
    bits < 0x7f80_0000 || bits == 0x8000_0000
}

impl EmbeddingProfileModel {
    pub open spec fn sound(self) -> bool {
        self.id.len() > 0 && self.client_id.len() > 0 && self.model.len() > 0 && self.dimension != 0 && sound_weight(
            self.weight_bits,
        ) && self.distance == EmbeddingDistance::Cosine
    }
}

impl DreamProfileModel {
    pub open spec fn sound(self) -> bool {
        self.id.len() > 0 && self.revision.len() > 0 && self.client_id.len() > 0 && self.agent_id.len() > 0
            && self.model_id.len() > 0 && self.prompt_version.len() > 0 && 0 < self.turn_end_threshold
            <= MAX_TURN_THRESHOLD && self.max_nodes > 0 && self.max_input_bytes >= MIN_DREAM_BYTES
    }
}

impl LawyerProfileModel {
    pub open spec fn sound(self) -> bool {
        self.id.len() > 0 && self.client_id.len() > 0 && self.agent_id.len() > 0 && self.model_id.len() > 0
            && self.prompt_version.len() > 0 && self.rule_set.len() > 0 && self.evidence_limit > 0
    }
}

/// What is wrong with an embedding profile, given those before it.
pub open spec fn embedding_fault(profiles: Seq<EmbeddingProfileModel>, i: nat) -> Option<ProfileFault> {
    if !profiles[i as int].sound() {
        Some(ProfileFault::Embedding { index: i as usize })
    } else if exists|j: int| 0 <= j < i && (#[trigger] profiles[j]).id == profiles[i as int].id {
        Some(ProfileFault::DuplicateId { index: i as usize })
    } else if exists|j: int| 0 <= j < i && (#[trigger] profiles[j]).model == profiles[i as int].model {
        Some(ProfileFault::DuplicateModel { index: i as usize })
    } else {
        None
    }
}

/// What is wrong with the first `n` embedding profiles.
pub open spec fn embeddings_fault(profiles: Seq<EmbeddingProfileModel>, n: nat) -> Option<ProfileFault>
    decreases n,
{
    if n == 0 {
        None
    } else {
        match embeddings_fault(profiles, (n - 1) as nat) {
            Some(fault) => Some(fault),
            None => embedding_fault(profiles, (n - 1) as nat),
        }
    }
}

proof fn embeddings_fault_persists(profiles: Seq<EmbeddingProfileModel>, n: nat, m: nat)
    requires
        n <= m,
        embeddings_fault(profiles, n) is Some,
    ensures
        embeddings_fault(profiles, m) == embeddings_fault(profiles, n),
    decreases m - n,
{
    if n < m {
        embeddings_fault_persists(profiles, n, (m - 1) as nat);
    }
}

impl MemoryProfileModel {
    /// What is wrong with the profile.
    pub open spec fn fault(self) -> Option<ProfileFault> {
        if self.version != PROFILE_VERSION {
            Some(ProfileFault::Version { version: self.version })
        } else if embeddings_fault(self.embedding_profiles, self.embedding_profiles.len()) is Some {
            embeddings_fault(self.embedding_profiles, self.embedding_profiles.len())
        } else if self.dreamer is Some && !self.dreamer->0.sound() {
            Some(ProfileFault::Dreamer)
        } else if self.lawyer is Some && !self.lawyer->0.sound() {
            Some(ProfileFault::Lawyer)
        } else {
            None
        }
    }
}

fn is_empty_text(text: &str) -> (r: bool)
    ensures
        r == (text@.len() == 0),
{
    proof {
        reveal_strlit("");
        if text@.len() == 0 {
            assert(text@ =~= ""@);
        }
    }
    same_text(text, "")
}

fn validate_embedding(profiles: &Vec<EmbeddingProfile>, index: usize) -> (r: Result<(), ProfileFault>)
    requires
        index < profiles@.len(),
    ensures
        match r {
            Ok(_) => embedding_fault(views(profiles@), index as nat) is None,
            Err(fault) => embedding_fault(views(profiles@), index as nat) == Some(fault),
        },
{
    let ghost all = views(profiles@);
    assert(all[index as int] == profiles@[index as int]@);
    let it = &profiles[index];
    let sound_bits = it.weight_bits < 0x7f80_0000 || it.weight_bits == 0x8000_0000;
    let cosine = match it.distance {
        EmbeddingDistance::Cosine => true,
        _ => false,
    };
    if is_empty_text(it.id.as_str()) || is_empty_text(it.client_id.as_str()) || is_empty_text(it.model.as_str())
        || it.dimension == 0 || !sound_bits || !cosine {
        return Err(ProfileFault::Embedding { index });
    }
    let mut same_id = false;
    let mut same_model = false;
    for j in 0..index
        invariant
            index < profiles@.len(),
            all == views(profiles@),
            it@ == all[index as int],
            same_id == exists|k: int| 0 <= k < j && (#[trigger] all[k]).id == it@.id,
            same_model == exists|k: int| 0 <= k < j && (#[trigger] all[k]).model == it@.model,
    {
        assert(views(profiles@)[j as int] == profiles@[j as int]@);
        let known_id = same_text(profiles[j].id.as_str(), it.id.as_str());
        let known_model = same_text(profiles[j].model.as_str(), it.model.as_str());
        proof {
            if known_id {
                assert(all[j as int].id == it@.id);
            }
            if known_model {
                assert(all[j as int].model == it@.model);
            }
        }
        same_id = same_id || known_id;
        same_model = same_model || known_model;
    }
    if same_id {
        return Err(ProfileFault::DuplicateId { index });
    }
    if same_model {
        return Err(ProfileFault::DuplicateModel { index });
    }
    Ok(())
}

/// Checks a profile.
pub fn validate_profile(profile: &MemoryProfile) -> (r: Result<(), ProfileFault>)
    ensures
        match r {
            Ok(_) => profile@.fault() is None,
            Err(fault) => profile@.fault() == Some(fault),
        },
{
    if profile.version != PROFILE_VERSION {
        return Err(ProfileFault::Version { version: profile.version });
    }
    let ghost all = profile@.embedding_profiles;
    assert(all.len() == profile.embedding_profiles@.len());
    for i in 0..profile.embedding_profiles.len()
        invariant
            profile.version == PROFILE_VERSION,
            all == views(profile.embedding_profiles@),
            all == profile@.embedding_profiles,
            all.len() == profile.embedding_profiles@.len(),
            embeddings_fault(all, i as nat) is None,
    {
        match validate_embedding(&profile.embedding_profiles, i) {
            Ok(_) => {},
            Err(fault) => {
                proof {
                    embeddings_fault_persists(all, (i + 1) as nat, all.len());
                }
                return Err(fault);
            },
        }
    }
    if let Some(dreamer) = &profile.dreamer {
        if is_empty_text(dreamer.id.as_str()) || is_empty_text(dreamer.revision.as_str()) || is_empty_text(
            dreamer.client_id.as_str(),
        ) || is_empty_text(dreamer.agent_id.as_str()) || is_empty_text(dreamer.model_id.as_str()) || is_empty_text(
            dreamer.prompt_version.as_str(),
        ) || dreamer.turn_end_threshold == 0 || dreamer.turn_end_threshold > MAX_TURN_THRESHOLD || dreamer.max_nodes
            == 0 || dreamer.max_input_bytes < MIN_DREAM_BYTES {
            return Err(ProfileFault::Dreamer);
        }
    }
    if let Some(lawyer) = &profile.lawyer {
        if is_empty_text(lawyer.id.as_str()) || is_empty_text(lawyer.client_id.as_str()) || is_empty_text(
            lawyer.agent_id.as_str(),
        ) || is_empty_text(lawyer.model_id.as_str()) || is_empty_text(lawyer.prompt_version.as_str())
            || is_empty_text(lawyer.rule_set.as_str()) || lawyer.evidence_limit == 0 {
            return Err(ProfileFault::Lawyer);
        }
    }
    Ok(())
}

/// The revision that a profile gets when it takes the place of another one.
pub open spec fn next_profile_revision(previous: u64, offered: u64) -> u64 {
    let last = if previous >= offered {
        previous
    } else {
        offered
    };
    if last == u64::MAX {
        last
    } else {
        (last + 1) as u64
    }
}

/// Puts a profile in the place of another one; nothing changes if it is refused.
pub fn replace_profile(current: &mut MemoryProfile, offered: MemoryProfile) -> (r: Result<(), ProfileFault>)
    ensures
        match r {
            Ok(_) => offered@.fault() is None && final(current)@ == (MemoryProfileModel {
                revision: next_profile_revision(old(current)@.revision, offered@.revision),
                ..offered@
            }),
            Err(fault) => offered@.fault() == Some(fault) && final(current)@ == old(current)@,
        },
{
    validate_profile(&offered)?;
    let last: u64 = if current.revision >= offered.revision {
        current.revision
    } else {
        offered.revision
    };
    let revision: u64 = last.saturating_add(1);
    *current = MemoryProfile { revision, ..offered };
    Ok(())
}

/// The revision of a profile only ever grows, until no greater one is left.
pub proof fn profile_revisions_grow(previous: u64, offered: u64)
    ensures
        next_profile_revision(previous, offered) >= 1,
        previous < u64::MAX && offered < u64::MAX ==> next_profile_revision(previous, offered) > previous,
        next_profile_revision(previous, offered) >= offered,
{
}

/// The content of a memory, as far as it decides who can embed it.
#[derive(Debug, PartialEq, Eq)]
pub enum ContentForm {
    Text,
    Json,
    Blob { mime: String },
}

/// What a [`ContentForm`] holds.
#[verifier::ext_equal]
pub enum ContentFormModel {
    Text,
    Json,
    Blob { mime: Seq<char> },
}

impl View for ContentForm {
    type V = ContentFormModel;

    open spec fn view(&self) -> ContentFormModel {
        match *self {
            ContentForm::Text => ContentFormModel::Text,
            ContentForm::Json => ContentFormModel::Json,
            ContentForm::Blob { mime } => ContentFormModel::Blob { mime: mime@ },
        }
    }
}

impl EmbeddingProfileModel {
    /// Whether content can be embedded.
    pub open spec fn supports(self, content: ContentFormModel) -> bool {
        match content {
            ContentFormModel::Text => self.supported_content.contains(SupportedContent::Text),
            ContentFormModel::Json => self.supported_content.contains(SupportedContent::Json),
            ContentFormModel::Blob { mime } => self.supported_content.contains(SupportedContent::Blob) && (
            self.supported_mime_types.len() == 0 || self.supported_mime_types.contains(mime)),
        }
    }
}

fn lists_content(kinds: &Vec<SupportedContent>, wanted: SupportedContent) -> (r: bool)
    ensures
        r == kinds@.contains(wanted),
{
    for i in 0..kinds.len()
        invariant
            forall|j: int| 0 <= j < i ==> kinds@[j] != wanted,
    {
        if kinds[i] == wanted {
            assert(kinds@[i as int] == wanted);
            return true;
        }
    }
    false
}

/// Whether a profile can embed content.
pub fn supports(profile: &EmbeddingProfile, content: &ContentForm) -> (r: bool)
    ensures
        r == profile@.supports(content@),
{
    match content {
        ContentForm::Text => lists_content(&profile.supported_content, SupportedContent::Text),
        ContentForm::Json => lists_content(&profile.supported_content, SupportedContent::Json),
        ContentForm::Blob { mime } => lists_content(&profile.supported_content, SupportedContent::Blob) && (
        profile.supported_mime_types.len() == 0 || lists_text(&profile.supported_mime_types, mime.as_str())),
    }
}

/// The place of the first of the first `n` embedding profiles with a name.
pub open spec fn profile_place(profiles: Seq<EmbeddingProfileModel>, id: Seq<char>, n: nat) -> Option<int>
    decreases n,
{
    if n == 0 {
        None
    } else {
        match profile_place(profiles, id, (n - 1) as nat) {
            Some(at) => Some(at),
            None => if profiles[n - 1].id == id {
                Some(n - 1)
            } else {
                None
            },
        }
    }
}

proof fn profile_place_persists(profiles: Seq<EmbeddingProfileModel>, id: Seq<char>, n: nat, m: nat)
    requires
        n <= m,
        profile_place(profiles, id, n) is Some,
    ensures
        profile_place(profiles, id, m) == profile_place(profiles, id, n),
    decreases m - n,
{
    if n < m {
        profile_place_persists(profiles, id, n, (m - 1) as nat);
    }
}

/// Finds an embedding profile by its name.
pub fn find_profile(profiles: &Vec<EmbeddingProfile>, id: &str) -> (r: Option<usize>)
    ensures
        match r {
            Some(at) => profile_place(views(profiles@), id@, profiles@.len()) == Some(at as int) && at < profiles@.len(),
            None => profile_place(views(profiles@), id@, profiles@.len()) is None,
        },
{
    let ghost all = views(profiles@);
    for i in 0..profiles.len()
        invariant
            all == views(profiles@),
            profile_place(all, id@, i as nat) is None,
    {
        assert(views(profiles@)[i as int] == profiles@[i as int]@);
        if same_text(profiles[i].id.as_str(), id) {
            proof {
                profile_place_persists(all, id@, (i + 1) as nat, profiles@.len());
            }
            return Some(i);
        }
    }
    None
}

/// The place of the embedding profile under which content is to be projected once more.
pub open spec fn retried_place(
    profiles: Seq<EmbeddingProfileModel>,
    id: Seq<char>,
    content: ContentFormModel,
) -> Result<int, ProfileFault> {
    match profile_place(profiles, id, profiles.len()) {
        None => Err(ProfileFault::Unknown { index: 0 }),
        Some(at) => if profiles[at].supports(content) {
            Ok(at)
        } else {
            Err(ProfileFault::Content)
        },
    }
}

/// Finds the embedding profile under which content is to be projected once more.
pub fn retried_profile(profiles: &Vec<EmbeddingProfile>, id: &str, content: &ContentForm) -> (r: Result<
    usize,
    ProfileFault,
>)
    ensures
        match r {
            Ok(at) => retried_place(views(profiles@), id@, content@) == Ok::<int, ProfileFault>(at as int) && at
                < profiles@.len(),
            Err(fault) => retried_place(views(profiles@), id@, content@) == Err::<int, ProfileFault>(fault),
        },
{
    match find_profile(profiles, id) {
        None => Err(ProfileFault::Unknown { index: 0 }),
        Some(at) => {
            assert(views(profiles@)[at as int] == profiles@[at as int]@);
            assert(views(profiles@).len() == profiles@.len());
            if supports(&profiles[at], content) {
                Ok(at)
            } else {
                Err(ProfileFault::Content)
            }
        },
    }
}

/// The places of those of the first `n` embedding profiles that take text.
pub open spec fn text_profiles(profiles: Seq<EmbeddingProfileModel>, n: nat) -> Seq<usize>
    decreases n,
{
    if n == 0 {
        Seq::empty()
    } else {
        let before = text_profiles(profiles, (n - 1) as nat);
        if profiles[n - 1].supports(ContentFormModel::Text) {
            before.push((n - 1) as usize)
        } else {
            before
        }
    }
}

/// The places of the first `n` requested embedding profiles.
pub open spec fn requested_profiles(
    profiles: Seq<EmbeddingProfileModel>,
    requested: Seq<Seq<char>>,
    n: nat,
) -> Result<Seq<usize>, ProfileFault>
    decreases n,
{
    if n == 0 {
        Ok(Seq::empty())
    } else {
        match requested_profiles(profiles, requested, (n - 1) as nat) {
            Err(fault) => Err(fault),
            Ok(before) => match profile_place(profiles, requested[n - 1], profiles.len()) {
                None => Err(ProfileFault::Unknown { index: (n - 1) as usize }),
                Some(at) => if profiles[at].supports(ContentFormModel::Text) {
                    Ok(before.push(at as usize))
                } else {
                    Err(ProfileFault::NotForText { index: (n - 1) as usize })
                },
            },
        }
    }
}

proof fn requested_fault_persists(
    profiles: Seq<EmbeddingProfileModel>,
    requested: Seq<Seq<char>>,
    n: nat,
    m: nat,
)
    requires
        n <= m,
        requested_profiles(profiles, requested, n) is Err,
    ensures
        requested_profiles(profiles, requested, m) == requested_profiles(profiles, requested, n),
    decreases m - n,
{
    if n < m {
        requested_fault_persists(profiles, requested, n, (m - 1) as nat);
    }
}

impl MemoryProfileModel {
    /// The embedding profiles that a text query goes through.
    pub open spec fn query_profiles(self, requested: Seq<Seq<char>>) -> Result<Seq<usize>, ProfileFault> {
        if requested.len() == 0 {
            Ok(text_profiles(self.embedding_profiles, self.embedding_profiles.len()))
        } else {
            requested_profiles(self.embedding_profiles, requested, requested.len())
        }
    }
}

/// The places of the embedding profiles that a text query goes through: those that are
/// requested, or else all that take text.
pub fn select_vector_profiles(profile: &MemoryProfile, requested: &Vec<String>) -> (r: Result<
    Vec<usize>,
    ProfileFault,
>)
    ensures
        match r {
            Ok(places) => profile@.query_profiles(views(requested@)) == Ok::<Seq<usize>, ProfileFault>(places@),
            Err(fault) => profile@.query_profiles(views(requested@)) == Err::<Seq<usize>, ProfileFault>(fault),
        },
{
    let ghost all = profile@.embedding_profiles;
    let ghost wanted = views(requested@);
    assert(all.len() == profile.embedding_profiles@.len());
    assert(wanted.len() == requested@.len());
    let mut places: Vec<usize> = Vec::new();
    if requested.len() == 0 {
        for i in 0..profile.embedding_profiles.len()
            invariant
                all == views(profile.embedding_profiles@),
                places@ == text_profiles(all, i as nat),
        {
            assert(views(profile.embedding_profiles@)[i as int] == profile.embedding_profiles@[i as int]@);
            if supports(&profile.embedding_profiles[i], &ContentForm::Text) {
                places.push(i);
            }
        }
        return Ok(places);
    }
    for i in 0..requested.len()
        invariant
            all == views(profile.embedding_profiles@),
            all == profile@.embedding_profiles,
            all.len() == profile.embedding_profiles@.len(),
            wanted == views(requested@),
            wanted.len() == requested@.len(),
            wanted.len() > 0,
            requested_profiles(all, wanted, i as nat) == Ok::<Seq<usize>, ProfileFault>(places@),
    {
        assert(views(requested@)[i as int] == requested@[i as int]@);
        match find_profile(&profile.embedding_profiles, requested[i].as_str()) {
            None => {
                proof {
                    requested_fault_persists(all, wanted, (i + 1) as nat, wanted.len());
                }
                return Err(ProfileFault::Unknown { index: i });
            },
            Some(at) => {
                assert(views(profile.embedding_profiles@)[at as int] == profile.embedding_profiles@[at as int]@);
                if !supports(&profile.embedding_profiles[at], &ContentForm::Text) {
                    proof {
                        requested_fault_persists(all, wanted, (i + 1) as nat, wanted.len());
                    }
                    return Err(ProfileFault::NotForText { index: i });
                }
                places.push(at);
            },
        }
    }
    Ok(places)
}

/// The lawyer of a profile, if that is the one that is asked for.
pub fn resolve_lawyer<'a>(profile: &'a MemoryProfile, requested: &str) -> (r: Option<&'a LawyerProfile>)
    ensures
        match r {
            Some(lawyer) => profile@.lawyer == Some(lawyer@) && lawyer@.id == requested@,
            None => profile@.lawyer is None || profile@.lawyer->0.id != requested@,
        },
{
    match &profile.lawyer {
        Some(lawyer) => if same_text(lawyer.id.as_str(), requested) {
            Some(lawyer)
        } else {
            None
        },
        None => None,
    }
}

/// A projection that is about to be made.
pub fn pending_projection(
    node_id: Ulid,
    node_revision: u64,
    profile_id: &str,
    attempts: u32,
    now_ms: i64,
) -> (r: ProjectionStatus)
    ensures
        r@ == (ProjectionStatusModel {
            node_id,
            node_revision,
            profile_id: profile_id@,
            state: ProjectionState::Pending,
            attempts,
            updated_at_ms: now_ms,
            last_error: None,
            searchable_text: None,
        }),
{
    ProjectionStatus {
        node_id,
        node_revision,
        profile_id: String::from_str(profile_id),
        state: ProjectionState::Pending,
        attempts,
        updated_at_ms: now_ms,
        last_error: None,
        searchable_text: None,
    }
}

impl ProjectionStatus {
    /// The projection is made, of a memory at a revision.
    pub fn succeed(&mut self, node_revision: u64, searchable_text: Option<String>, now_ms: i64)
        ensures
            final(self)@ == (ProjectionStatusModel {
                node_revision,
                state: ProjectionState::Ready,
                updated_at_ms: now_ms,
                searchable_text: opt_view(searchable_text),
                ..old(self)@
            }),
    {
        self.node_revision = node_revision;
        self.state = ProjectionState::Ready;
        self.updated_at_ms = now_ms;
        self.searchable_text = searchable_text;
    }

    /// The projection could not be made.
    pub fn fail(&mut self, error: String, now_ms: i64)
        ensures
            final(self)@ == (ProjectionStatusModel {
                state: ProjectionState::Failed,
                updated_at_ms: now_ms,
                last_error: Some(error@),
                ..old(self)@
            }),
    {
        self.state = ProjectionState::Failed;
        self.updated_at_ms = now_ms;
        self.last_error = Some(error);
    }
}

/// The searchable text of those of the first `n` projections that are ready and whose
/// profile is in use.
pub open spec fn projected_texts(
    profiles: Seq<EmbeddingProfileModel>,
    statuses: Seq<ProjectionStatusModel>,
    n: nat,
) -> Seq<Seq<char>>
    decreases n,
{
    if n == 0 {
        Seq::empty()
    } else {
        let before = projected_texts(profiles, statuses, (n - 1) as nat);
        let status = statuses[n - 1];
        if profile_place(profiles, status.profile_id, profiles.len()) is Some && status.state
            == ProjectionState::Ready && status.searchable_text is Some {
            before.push(status.searchable_text->0)
        } else {
            before
        }
    }
}

/// The searchable text that a memory has from its projections.
pub fn searchable_projections(profile: &MemoryProfile, statuses: &Vec<ProjectionStatus>) -> (r: Vec<String>)
    ensures
        views(r@) == projected_texts(profile@.embedding_profiles, views(statuses@), statuses@.len()),
{
    let ghost all = views(statuses@);
    let ghost known = profile@.embedding_profiles;
    let mut r: Vec<String> = Vec::new();
    assert(views(r@) =~= Seq::<Seq<char>>::empty());
    assert(known.len() == profile.embedding_profiles@.len());
    for i in 0..statuses.len()
        invariant
            all == views(statuses@),
            known == views(profile.embedding_profiles@),
            known.len() == profile.embedding_profiles@.len(),
            views(r@) == projected_texts(known, all, i as nat),
    {
        assert(views(statuses@)[i as int] == statuses@[i as int]@);
        let found = find_profile(&profile.embedding_profiles, statuses[i].profile_id.as_str());
        if found.is_some() && statuses[i].state == ProjectionState::Ready {
            if let Some(text) = &statuses[i].searchable_text {
                let ghost before = r@;
                r.push(text.clone());
                assert(views(r@) =~= views(before).push(text@));
            }
        }
    }
    r
}

/// The key of a tenant's record.
pub open spec fn tenant_bytes(tenant: u32, id: Ulid) -> Seq<u8> {
    be(tenant as int, 4) + id_bytes(id)
}

pub fn tenant_ulid_key(tenant: u32, id: Ulid) -> (r: Vec<u8>)
    ensures
        r@ == tenant_bytes(tenant, id),
{
    let mut key: Vec<u8> = be_bytes(tenant as u128, 4);
    let tail: Vec<u8> = id_key(id);
    append_bytes(&mut key, tail.as_slice());
    key
}

/// The key of a memory's projection under a profile.
pub open spec fn projection_bytes(tenant: u32, node: Ulid, profile: Seq<char>) -> Seq<u8> {
    tenant_bytes(tenant, node) + utf8(profile)
}

pub fn projection_key(tenant: u32, node: Ulid, profile: &str) -> (r: Vec<u8>)
    ensures
        r@ == projection_bytes(tenant, node, profile@),
{
    let mut key = tenant_ulid_key(tenant, node);
    append_bytes(&mut key, text_bytes(profile));
    key
}

/// Different projections have different keys.
pub proof fn projection_keys_are_unambiguous(
    tenant: u32,
    node: Ulid,
    profile: Seq<char>,
    other_tenant: u32,
    other_node: Ulid,
    other_profile: Seq<char>,
)
    requires
        projection_bytes(tenant, node, profile) == projection_bytes(other_tenant, other_node, other_profile),
    ensures
        tenant == other_tenant,
        node == other_node,
        profile == other_profile,
{
    span_values();
    be_len(tenant as int, 4);
    be_len(other_tenant as int, 4);
    be_len(node.0 as int, 16);
    be_len(other_node.0 as int, 16);
    parts_agree(
        tenant_bytes(tenant, node),
        tenant_bytes(other_tenant, other_node),
        utf8(profile),
        utf8(other_profile),
    );
    parts_agree(be(tenant as int, 4), be(other_tenant as int, 4), id_bytes(node), id_bytes(other_node));
    be_value_of_be(tenant as int, 4);
    be_value_of_be(other_tenant as int, 4);
    be_value_of_be(node.0 as int, 16);
    be_value_of_be(other_node.0 as int, 16);
    utf8_is_injective(profile, other_profile);
}

/// Several reasons in one text.
pub open spec fn joined(reasons: Seq<Seq<char>>, n: nat) -> Seq<char>
    decreases n,
{
    if n == 0 {
        Seq::empty()
    } else if n == 1 {
        reasons[0]
    } else {
        joined(reasons, (n - 1) as nat) + "; "@ + reasons[n - 1]
    }
}

/// How a recall without a lawyer came about: whether something was missing, and what.
pub fn unruled_status(reasons: &Vec<String>) -> (r: RecallStatus)
    ensures
        r@ == (if reasons@.len() == 0 {
            RecallStatusModel::Deterministic
        } else {
            RecallStatusModel::Degraded { reason: joined(views(reasons@), reasons@.len()) }
        }),
{
    if reasons.len() == 0 {
        return RecallStatus::Deterministic;
    }
    let ghost all = views(reasons@);
    let mut reason = reasons[0].clone();
    assert(views(reasons@)[0] == reasons@[0]@);
    let mut i: usize = 1;
    while i < reasons.len()
        invariant
            1 <= i <= reasons@.len(),
            all == views(reasons@),
            reason@ == joined(all, i as nat),
        decreases reasons@.len() - i,
    {
        assert(views(reasons@)[i as int] == reasons@[i as int]@);
        reason.append("; ");
        reason.append(reasons[i].as_str());
        i = i + 1;
    }
    RecallStatus::Degraded { reason }
}

/// Whether a failed lawyer is passed over.
pub fn passes_over(lawyer: &LawyerProfile) -> (r: bool)
    ensures
        r == (lawyer@.failure_mode == LawyerFailureMode::ReturnDeterministic),
{
    lawyer.failure_mode == LawyerFailureMode::ReturnDeterministic
}

} // verus!
