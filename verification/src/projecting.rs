//! Making projections of memories: what an attempt starts from, and what a client's reply
//! makes of it.
use vstd::prelude::*;
use vstd::string::StringExecFns;
use crate::ids::Ulid;
use crate::message::{decimal, decimal_text};
use crate::profiles::{pending_projection, profile_place, projected_texts};
use crate::records::profile::{
    EmbeddingProfile, EmbeddingProfileModel, ProjectionState, ProjectionStatus,
    ProjectionStatusModel,
};
use crate::table::{opt_view, views};
use crate::wordlist::same_text;

verus! {

/// What came of asking for a vector.
#[derive(Debug, PartialEq, Eq)]
pub enum EmbeddingReply {
    /// There is nobody to ask.
    Unregistered,
    /// The embedder at hand works with another model.
    OtherModel,
    /// The call failed, for a reason.
    Failed(String),
    /// A vector came: its length, and whether all its values are finite.
    Vector { length: usize, finite: bool },
}

/// What an [`EmbeddingReply`] holds.
#[verifier::ext_equal]
pub enum EmbeddingReplyModel {
    Unregistered,
    OtherModel,
    Failed(Seq<char>),
    Vector { length: usize, finite: bool },
}

impl View for EmbeddingReply {
    type V = EmbeddingReplyModel;

    open spec fn view(&self) -> EmbeddingReplyModel {
        match self {
            EmbeddingReply::Unregistered => EmbeddingReplyModel::Unregistered,
            EmbeddingReply::OtherModel => EmbeddingReplyModel::OtherModel,
            EmbeddingReply::Failed(reason) => EmbeddingReplyModel::Failed(reason@),
            EmbeddingReply::Vector { length, finite } => EmbeddingReplyModel::Vector {
                length: *length,
                finite: *finite,
            },
        }
    }
}

impl EmbeddingReplyModel {
    /// Why a reply gives no vector for a profile, if it gives none.
    pub open spec fn fault(self, profile: EmbeddingProfileModel) -> Option<Seq<char>> {
        match self {
            EmbeddingReplyModel::Unregistered => Some(
                "embedding client `"@ + profile.client_id + "` is not registered"@,
            ),
            EmbeddingReplyModel::OtherModel => Some(
                "legacy embedder does not provide model `"@ + profile.model + "`"@,
            ),
            EmbeddingReplyModel::Failed(reason) => Some(reason),
            EmbeddingReplyModel::Vector { length, finite } => if length == profile.dimension && finite {
                None
            } else {
                Some(
                    "invalid embedding output: expected "@ + decimal_text(profile.dimension as u64)
                        + " finite values, got "@ + decimal_text(length as u64),
                )
            },
        }
    }
}

impl EmbeddingReply {
    /// Why the reply gives no vector for a profile, if it gives none.
    pub fn fault(&self, profile: &EmbeddingProfile) -> (r: Option<String>)
        ensures
            opt_view(r) == self@.fault(profile@),
    {
        match self {
            EmbeddingReply::Unregistered => {
                let mut text = String::from_str("embedding client `");
                text.append(profile.client_id.as_str());
                text.append("` is not registered");
                Some(text)
            },
            EmbeddingReply::OtherModel => {
                let mut text = String::from_str("legacy embedder does not provide model `");
                text.append(profile.model.as_str());
                text.append("`");
                Some(text)
            },
            EmbeddingReply::Failed(reason) => Some(reason.clone()),
            EmbeddingReply::Vector { length, finite } => if *length as u64 == profile.dimension as u64 && *finite {
                None
            } else {
                let mut text = String::from_str("invalid embedding output: expected ");
                text.append(decimal(profile.dimension as u64).as_str());
                text.append(" finite values, got ");
                text.append(decimal(*length as u64).as_str());
                Some(text)
            },
        }
    }
}

/// How often a projection was tried, given how it stood.
pub open spec fn attempts_so_far(previous: Option<ProjectionStatusModel>) -> u32 {
    match previous {
        Some(status) => status.attempts,
        None => 0,
    }
}

/// A projection that has to be made, of a memory as it is now.
pub fn await_projection(
    node_id: Ulid,
    node_revision: u64,
    profile: &EmbeddingProfile,
    previous: &Option<ProjectionStatus>,
    now_ms: i64,
) -> (r: ProjectionStatus)
    ensures
        r@ == (ProjectionStatusModel {
            node_id,
            node_revision,
            profile_id: profile@.id,
            state: ProjectionState::Pending,
            attempts: attempts_so_far(opt_view(*previous)),
            updated_at_ms: now_ms,
            last_error: None,
            searchable_text: None,
        }),
{
    let attempts: u32 = match previous {
        Some(status) => status.attempts,
        None => 0,
    };
    pending_projection(node_id, node_revision, profile.id.as_str(), attempts, now_ms)
}

/// A projection that is being made: one attempt more.
pub fn begin_projection(
    node_id: Ulid,
    node_revision: u64,
    profile: &EmbeddingProfile,
    previous: &Option<ProjectionStatus>,
    now_ms: i64,
) -> (r: ProjectionStatus)
    requires
        attempts_so_far(opt_view(*previous)) < u32::MAX,
    ensures
        r@ == (ProjectionStatusModel {
            node_id,
            node_revision,
            profile_id: profile@.id,
            state: ProjectionState::Pending,
            attempts: (attempts_so_far(opt_view(*previous)) + 1) as u32,
            updated_at_ms: now_ms,
            last_error: None,
            searchable_text: None,
        }),
{
    let attempts: u32 = match previous {
        Some(status) => status.attempts + 1,
        None => 1,
    };
    pending_projection(node_id, node_revision, profile.id.as_str(), attempts, now_ms)
}

impl ProjectionStatusModel {
    /// A projection after an attempt: of which revision it is and its searchable text, or
    /// why there is none.
    pub open spec fn settled(self, outcome: Result<(u64, Option<Seq<char>>), Seq<char>>, now_ms: i64) -> ProjectionStatusModel {
        match outcome {
            Ok((node_revision, searchable_text)) => ProjectionStatusModel {
                node_revision,
                state: ProjectionState::Ready,
                updated_at_ms: now_ms,
                searchable_text,
                ..self
            },
            Err(reason) => ProjectionStatusModel {
                state: ProjectionState::Failed,
                updated_at_ms: now_ms,
                last_error: Some(reason),
                ..self
            },
        }
    }
}

/// The outcome of an attempt, as it shows.
pub open spec fn outcome_view(outcome: Result<(u64, Option<String>), String>) -> Result<
    (u64, Option<Seq<char>>),
    Seq<char>,
> {
    match outcome {
        Ok((node_revision, searchable_text)) => Ok((node_revision, opt_view(searchable_text))),
        Err(reason) => Err(reason@),
    }
}

impl ProjectionStatus {
    /// Ends an attempt.
    pub fn settle(&mut self, outcome: Result<(u64, Option<String>), String>, now_ms: i64)
        ensures
            final(self)@ == old(self)@.settled(outcome_view(outcome), now_ms),
    {
        match outcome {
            Ok((node_revision, searchable_text)) => self.succeed(node_revision, searchable_text, now_ms),
            Err(reason) => self.fail(reason, now_ms),
        }
    }
}

/// The places of those of the first `n` models that are not a given one.
pub open spec fn other_models(models: Seq<Seq<char>>, model: Seq<char>, n: nat) -> Seq<usize>
    decreases n,
{
    if n == 0 {
        Seq::empty()
    } else {
        let before = other_models(models, model, (n - 1) as nat);
        if models[n - 1] == model {
            before
        } else {
            before.push((n - 1) as usize)
        }
    }
}

/// The places of the embeddings that stay when one of a model is added.
pub fn lasting_embeddings(models: &Vec<String>, model: &str) -> (r: Vec<usize>)
    ensures
        r@ == other_models(views(models@), model@, models@.len()),
{
    let ghost all = views(models@);
    let mut r: Vec<usize> = Vec::new();
    for i in 0..models.len()
        invariant
            all == views(models@),
            r@ == other_models(all, model@, i as nat),
    {
        assert(all[i as int] == models@[i as int]@);
        if !same_text(models[i].as_str(), model) {
            r.push(i);
        }
    }
    r
}

/// The embeddings that stay are those of other models, all of them, each once and in their
/// order: with the new one a memory has one embedding of the model.
pub proof fn one_embedding_lasts(models: Seq<Seq<char>>, model: Seq<char>)
    requires
        models.len() <= usize::MAX,
    ensures
        ({
            let kept = other_models(models, model, models.len());
            &&& forall|i: int| 0 <= i < kept.len() ==> (#[trigger] kept[i]) < models.len() && models[kept[i] as int] != model
            &&& forall|i: int, j: int| 0 <= i < j < kept.len() ==> kept[i] < kept[j]
            &&& forall|m: int| 0 <= m < models.len() && #[trigger] models[m] != model ==> kept.contains(m as usize)
        }),
{
    kept_so_far(models, model, models.len());
}

proof fn kept_so_far(models: Seq<Seq<char>>, model: Seq<char>, n: nat)
    requires
        n <= models.len() <= usize::MAX,
    ensures
        ({
            let kept = other_models(models, model, n);
            &&& forall|i: int| 0 <= i < kept.len() ==> (#[trigger] kept[i]) < n && models[kept[i] as int] != model
            &&& forall|i: int, j: int| 0 <= i < j < kept.len() ==> kept[i] < kept[j]
            &&& forall|m: int| 0 <= m < n && #[trigger] models[m] != model ==> kept.contains(m as usize)
        }),
    decreases n,
{
    if n > 0 {
        kept_so_far(models, model, (n - 1) as nat);
        let before = other_models(models, model, (n - 1) as nat);
        let kept = other_models(models, model, n);
        assert forall|m: int| 0 <= m < n && #[trigger] models[m] != model implies kept.contains(m as usize) by {
            if m == n - 1 {
                assert(kept[before.len() as int] == m as usize);
            } else {
                let i = choose|i: int| 0 <= i < before.len() && before[i] == m as usize;
                assert(kept[i] == m as usize);
            }
        }
    }
}

/// What a memory is found by through its projections comes from those that are ready and
/// whose profile is in use: of a projection under way or failed nothing is searched.
pub proof fn only_ready_projections_are_searched(
    profiles: Seq<EmbeddingProfileModel>,
    statuses: Seq<ProjectionStatusModel>,
    text: Seq<char>,
)
    requires
        projected_texts(profiles, statuses, statuses.len()).contains(text),
    ensures
        exists|i: int|
            0 <= i < statuses.len() && (#[trigger] statuses[i]).state == ProjectionState::Ready && statuses[i].searchable_text
                == Some(text) && profile_place(profiles, statuses[i].profile_id, profiles.len()) is Some,
{
    searched_so_far(profiles, statuses, text, statuses.len());
}

proof fn searched_so_far(
    profiles: Seq<EmbeddingProfileModel>,
    statuses: Seq<ProjectionStatusModel>,
    text: Seq<char>,
    n: nat,
)
    requires
        n <= statuses.len(),
        projected_texts(profiles, statuses, n).contains(text),
    ensures
        exists|i: int|
            0 <= i < n && (#[trigger] statuses[i]).state == ProjectionState::Ready && statuses[i].searchable_text
                == Some(text) && profile_place(profiles, statuses[i].profile_id, profiles.len()) is Some,
    decreases n,
{
    let found = projected_texts(profiles, statuses, n);
    let k = choose|k: int| 0 <= k < found.len() && found[k] == text;
    if n > 0 {
        let before = projected_texts(profiles, statuses, (n - 1) as nat);
        if k < before.len() {
            assert(before[k] == text);
            searched_so_far(profiles, statuses, text, (n - 1) as nat);
        } else {
            assert(statuses[n - 1].searchable_text == Some(text));
        }
    }
}

/// A profile that a query was prepared for, and what it was like.
#[derive(Debug, PartialEq, Eq)]
pub struct PreparedProfile {
    pub profile_id: String,
    pub fingerprint: String,
}

/// What a [`PreparedProfile`] holds.
#[verifier::ext_equal]
pub struct PreparedProfileModel {
    pub profile_id: Seq<char>,
    pub fingerprint: Seq<char>,
}

impl View for PreparedProfile {
    type V = PreparedProfileModel;

    open spec fn view(&self) -> PreparedProfileModel {
        PreparedProfileModel { profile_id: self.profile_id@, fingerprint: self.fingerprint@ }
    }
}

/// The places of those of the first `n` prepared queries whose profile is still in use as
/// it was, and what is said of the others.
pub open spec fn sorted_out(
    in_use: Seq<PreparedProfileModel>,
    prepared: Seq<PreparedProfileModel>,
    n: nat,
) -> (Seq<usize>, Seq<Seq<char>>)
    decreases n,
{
    if n == 0 {
        (Seq::empty(), Seq::empty())
    } else {
        let (kept, said) = sorted_out(in_use, prepared, (n - 1) as nat);
        if in_use.contains(prepared[n - 1]) {
            (kept.push((n - 1) as usize), said)
        } else {
            (
                kept,
                said.push(
                    "embedding profile `"@ + prepared[n - 1].profile_id + "` changed while preparing recall"@,
                ),
            )
        }
    }
}

fn is_in_use(in_use: &Vec<PreparedProfile>, wanted: &PreparedProfile) -> (r: bool)
    ensures
        r == views(in_use@).contains(wanted@),
{
    let ghost all = views(in_use@);
    for i in 0..in_use.len()
        invariant
            all == views(in_use@),
            all.len() == in_use@.len(),
            forall|j: int| 0 <= j < i ==> #[trigger] all[j] != wanted@,
    {
        assert(all[i as int] == in_use@[i as int]@);
        if same_text(in_use[i].profile_id.as_str(), wanted.profile_id.as_str()) && same_text(
            in_use[i].fingerprint.as_str(),
            wanted.fingerprint.as_str(),
        ) {
            return true;
        }
    }
    false
}

/// Keeps the prepared queries whose profile is still in use as it was, and says of each of
/// the others that its profile changed.
pub fn sort_out(in_use: &Vec<PreparedProfile>, prepared: &Vec<PreparedProfile>) -> (r: (Vec<usize>, Vec<String>))
    ensures
        (r.0@, views(r.1@)) == sorted_out(views(in_use@), views(prepared@), prepared@.len()),
{
    let ghost known = views(in_use@);
    let ghost all = views(prepared@);
    let mut kept: Vec<usize> = Vec::new();
    let mut said: Vec<String> = Vec::new();
    assert(views(said@) =~= Seq::<Seq<char>>::empty());
    for i in 0..prepared.len()
        invariant
            known == views(in_use@),
            all == views(prepared@),
            (kept@, views(said@)) == sorted_out(known, all, i as nat),
    {
        assert(all[i as int] == prepared@[i as int]@);
        if is_in_use(in_use, &prepared[i]) {
            kept.push(i);
        } else {
            let mut text = String::from_str("embedding profile `");
            text.append(prepared[i].profile_id.as_str());
            text.append("` changed while preparing recall");
            let ghost before = said@;
            said.push(text);
            assert(views(said@) =~= views(before).push(text@));
        }
    }
    (kept, said)
}

} // verus!
