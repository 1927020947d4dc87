//! Profiles, projections and searches: which profiles can be used, what they take, and what
//! a search goes by.

use vstd::prelude::*;
use crate::asking::{RecallFault, RecallRequestModel};
use crate::ids::Ulid;
use crate::keybytes::id_bytes;
use crate::metadata::{MetadataFaultModel, NativeMetadataModel, settled_metadata};
use crate::profiles::{
    ContentFormModel, ProfileFault, embedding_fault, embeddings_fault, joined,
    next_profile_revision, profile_place, projected_texts, requested_profiles, retried_place,
    sound_weight, text_profiles,
};
use crate::projecting::{EmbeddingReplyModel, PreparedProfileModel, sorted_out};
use crate::records::graph::MetadataEntryModel;
use crate::records::profile::{
    DreamProfileModel, EmbeddingProfileModel, LawyerProfileModel, MemoryProfileModel,
    ProjectionStatusModel, SupportedContent,
};
use crate::searching::{VectorFilterModel, holds_entry, reset_entries};

verus! {

/// A weight is sound if it is a number that is finite and not negative; minus zero counts
/// as zero.
pub proof fn weights_are_finite_and_not_negative(bits: u32)
    ensures
        sound_weight(bits) <==> (bits <= 0x7f7f_ffff || bits == 0x8000_0000),
{
}

/// An embedding profile is sound if it names itself, its client and its model, embeds in
/// some dimension by the cosine, and has a sound weight.
pub proof fn embedding_profiles_are_sound(profile: EmbeddingProfileModel)
    ensures
        profile.sound() <==> {
            &&& profile.id.len() > 0 && profile.client_id.len() > 0 && profile.model.len() > 0
            &&& profile.dimension >= 1
            &&& profile.distance is Cosine
            &&& profile.weight_bits <= 0x7f7f_ffff || profile.weight_bits == 0x8000_0000
        },
{
}

/// A dreamer and a lawyer are sound if everything that they are known by is named, and
/// there is something for them to do: a dreamer dreams after one to 128 turns, of at least
/// one memory and with at least four kibibytes, and a lawyer sees at least one piece of
/// evidence.
pub proof fn agents_are_sound(dreamer: DreamProfileModel, lawyer: LawyerProfileModel)
    ensures
        dreamer.sound() <==> {
            &&& dreamer.id.len() > 0 && dreamer.revision.len() > 0 && dreamer.client_id.len() > 0
            &&& dreamer.agent_id.len() > 0 && dreamer.model_id.len() > 0 && dreamer.prompt_version.len() > 0
            &&& 1 <= dreamer.turn_end_threshold <= 128
            &&& dreamer.max_nodes >= 1
            &&& dreamer.max_input_bytes >= 4_096
        },
        lawyer.sound() <==> {
            &&& lawyer.id.len() > 0 && lawyer.client_id.len() > 0 && lawyer.agent_id.len() > 0
            &&& lawyer.model_id.len() > 0 && lawyer.prompt_version.len() > 0 && lawyer.rule_set.len() > 0
            &&& lawyer.evidence_limit >= 1
        },
{
}

proof fn embeddings_are_checked(profiles: Seq<EmbeddingProfileModel>, n: nat)
    requires
        n <= profiles.len(),
    ensures
        embeddings_fault(profiles, n) is None <==> {
            &&& forall|i: int| 0 <= i < n ==> (#[trigger] profiles[i]).sound()
            &&& forall|i: int, j: int|
                0 <= i < j < n ==> (#[trigger] profiles[i]).id != (#[trigger] profiles[j]).id && profiles[i].model
                    != profiles[j].model
        },
    decreases n,
{
    if n > 0 {
        let m = (n - 1) as nat;
        embeddings_are_checked(profiles, m);
        if embedding_fault(profiles, m) is None && embeddings_fault(profiles, m) is None {
            assert forall|i: int, j: int| 0 <= i < j < n implies (#[trigger] profiles[i]).id != (
            #[trigger] profiles[j]).id && profiles[i].model != profiles[j].model by {
                if j == m {
                    assert(profiles[i].id != profiles[m as int].id);
                    assert(profiles[i].model != profiles[m as int].model);
                }
            }
        }
    }
}

/// A profile can be used if and only if it is of the first version, its embedding profiles
/// are sound and differ in their names and in their models, and so are its dreamer and its
/// lawyer, where it has them.
pub proof fn profiles_can_be_used(profile: MemoryProfileModel)
    ensures
        profile.fault() is None <==> {
            &&& profile.version == 1
            &&& forall|i: int|
                0 <= i < profile.embedding_profiles.len() ==> (#[trigger] profile.embedding_profiles[i]).sound()
            &&& forall|i: int, j: int|
                0 <= i < j < profile.embedding_profiles.len() ==> (#[trigger] profile.embedding_profiles[i]).id != (
                #[trigger] profile.embedding_profiles[j]).id && profile.embedding_profiles[i].model
                    != profile.embedding_profiles[j].model
            &&& profile.dreamer matches Some(dreamer) ==> dreamer.sound()
            &&& profile.lawyer matches Some(lawyer) ==> lawyer.sound()
        },
{
    embeddings_are_checked(profile.embedding_profiles, profile.embedding_profiles.len());
}

/// A profile takes the content that it lists, and of blobs those of the types that it
/// lists, or all if it lists none.
pub proof fn profiles_take_what_they_list(profile: EmbeddingProfileModel, content: ContentFormModel)
    ensures
        profile.supports(content) <==> match content {
            ContentFormModel::Text => profile.supported_content.contains(SupportedContent::Text),
            ContentFormModel::Json => profile.supported_content.contains(SupportedContent::Json),
            ContentFormModel::Blob { mime } => profile.supported_content.contains(SupportedContent::Blob) && (
            profile.supported_mime_types.len() > 0 ==> profile.supported_mime_types.contains(mime)),
        },
{
}

/// A name stands for the first profile that has it.
pub proof fn names_stand_for_the_first(profiles: Seq<EmbeddingProfileModel>, id: Seq<char>, n: nat)
    requires
        n <= profiles.len(),
    ensures
        match profile_place(profiles, id, n) {
            Some(at) => 0 <= at < n && profiles[at].id == id && forall|i: int|
                0 <= i < at ==> (#[trigger] profiles[i]).id != id,
            None => forall|i: int| 0 <= i < n ==> (#[trigger] profiles[i]).id != id,
        },
    decreases n,
{
    if n > 0 {
        names_stand_for_the_first(profiles, id, (n - 1) as nat);
    }
}

/// Content is projected once more under the first profile that has the name, if that one
/// takes it.
pub proof fn content_is_projected_again(
    profiles: Seq<EmbeddingProfileModel>,
    id: Seq<char>,
    content: ContentFormModel,
)
    ensures
        match retried_place(profiles, id, content) {
            Ok(at) => 0 <= at < profiles.len() && profiles[at].id == id && profiles[at].supports(content)
                && forall|i: int| 0 <= i < at ==> (#[trigger] profiles[i]).id != id,
            Err(ProfileFault::Content) => exists|at: int|
                0 <= at < profiles.len() && (#[trigger] profiles[at]).id == id && !profiles[at].supports(content)
                    && forall|i: int| 0 <= i < at ==> (#[trigger] profiles[i]).id != id,
            Err(fault) => fault == (ProfileFault::Unknown { index: 0 }) && forall|i: int|
                0 <= i < profiles.len() ==> (#[trigger] profiles[i]).id != id,
        },
{
    names_stand_for_the_first(profiles, id, profiles.len());
}

/// A profile that takes the place of another one gets the next revision after the later of
/// the two, while there is one.
pub proof fn profiles_get_the_next_revision(previous: u64, offered: u64)
    ensures
        next_profile_revision(previous, offered) == next_profile_revision(offered, previous),
        previous <= offered < u64::MAX ==> next_profile_revision(previous, offered) == offered + 1,
        next_profile_revision(previous, u64::MAX) == u64::MAX,
{
}

/// A store in which nothing was found is set up if and only if that is allowed: for the era
/// that its marker names, with a key made of the bytes of two numbers.
pub proof fn stores_are_set_up(era: Seq<char>, allowed: bool, first: Ulid, second: Ulid)
    ensures
        settled_metadata(None, era, allowed, first, second) == (if allowed {
            Result::<NativeMetadataModel, MetadataFaultModel>::Ok(
                NativeMetadataModel { store_era_id: era, digest_key: id_bytes(first) + id_bytes(second) },
            )
        } else {
            Err(MetadataFaultModel::Missing)
        }),
{
}

/// A query that asks for no profile goes through all that take text, in their order.
pub proof fn text_goes_through_what_takes_it(profiles: Seq<EmbeddingProfileModel>, n: nat, at: int)
    requires
        0 <= at < n <= profiles.len(),
        profiles.len() <= usize::MAX,
    ensures
        text_profiles(profiles, n).contains(at as usize) <==> profiles[at].supported_content.contains(
            SupportedContent::Text,
        ),
        forall|i: int| 0 <= i < text_profiles(profiles, n).len() ==> (#[trigger] text_profiles(profiles, n)[i]) < n,
        forall|i: int, j: int|
            0 <= i < j < text_profiles(profiles, n).len() ==> (#[trigger] text_profiles(profiles, n)[i]) < (
            #[trigger] text_profiles(profiles, n)[j]),
    decreases n,
{
    let m = (n - 1) as nat;
    let before = text_profiles(profiles, m);
    let now = text_profiles(profiles, n);
    if m > 0 {
        text_goes_through_what_takes_it(
            profiles,
            m,
            if at < m {
                at
            } else {
                0
            },
        );
    }
    assert forall|i: int| 0 <= i < now.len() implies (#[trigger] now[i]) < n by {
        if i < before.len() {
            assert(now[i] == before[i]);
        }
    }
    assert forall|i: int, j: int| 0 <= i < j < now.len() implies (#[trigger] now[i]) < (#[trigger] now[j]) by {
        assert(now[i] == before[i]);
        if j < before.len() {
            assert(now[j] == before[j]);
        }
    }
    if at < m {
        if before.contains(at as usize) {
            let i = before.index_of(at as usize);
            assert(now[i] == at as usize);
        }
        if now.contains(at as usize) {
            let i = now.index_of(at as usize);
            assert(now[i] == at as usize);
            if i < before.len() {
                assert(before[i] == at as usize);
            }
        }
    } else {
        if profiles[at].supports(ContentFormModel::Text) {
            assert(now[before.len() as int] == at as usize);
        } else if now.contains(at as usize) {
            let i = now.index_of(at as usize);
            assert(before[i] == at as usize);
        }
    }
}

/// A query that asks for profiles goes through those, in the order in which it asks, and is
/// refused if one of them is not there or does not take text.
pub proof fn queries_go_through_what_they_ask_for(
    profiles: Seq<EmbeddingProfileModel>,
    requested: Seq<Seq<char>>,
    n: nat,
)
    requires
        n <= requested.len(),
        profiles.len() <= usize::MAX,
    ensures
        match requested_profiles(profiles, requested, n) {
            Ok(places) => places.len() == n && forall|i: int|
                0 <= i < n ==> (#[trigger] places[i]) < profiles.len() && profiles[places[i] as int].id == requested[i]
                    && profiles[places[i] as int].supported_content.contains(SupportedContent::Text),
            Err(_) => exists|i: int|
                0 <= i < n && match profile_place(profiles, #[trigger] requested[i], profiles.len()) {
                    None => true,
                    Some(at) => !profiles[at].supported_content.contains(SupportedContent::Text),
                },
        },
    decreases n,
{
    if n > 0 {
        let m = (n - 1) as nat;
        queries_go_through_what_they_ask_for(profiles, requested, m);
        names_stand_for_the_first(profiles, requested[m as int], profiles.len());
        match requested_profiles(profiles, requested, m) {
            Ok(before) => {
                match requested_profiles(profiles, requested, n) {
                    Ok(places) => {
                        assert forall|i: int| 0 <= i < n implies (#[trigger] places[i]) < profiles.len()
                            && profiles[places[i] as int].id == requested[i]
                            && profiles[places[i] as int].supported_content.contains(SupportedContent::Text) by {
                            if i < m {
                                assert(places[i] == before[i]);
                            }
                        }
                    },
                    Err(_) => {
                        assert(match profile_place(profiles, requested[m as int], profiles.len()) {
                            None => true,
                            Some(at) => !profiles[at].supported_content.contains(SupportedContent::Text),
                        });
                    },
                }
            },
            Err(_) => {
                let i = choose|i: int|
                    0 <= i < m && match profile_place(profiles, #[trigger] requested[i], profiles.len()) {
                        None => true,
                        Some(at) => !profiles[at].supported_content.contains(SupportedContent::Text),
                    };
                assert(match profile_place(profiles, requested[i], profiles.len()) {
                    None => true,
                    Some(at) => !profiles[at].supported_content.contains(SupportedContent::Text),
                });
            },
        }
    }
}

/// What is searched of a memory: the text of every projection that is ready and whose
/// profile is in use.
pub proof fn ready_projections_are_searched(
    profiles: Seq<EmbeddingProfileModel>,
    statuses: Seq<ProjectionStatusModel>,
    n: nat,
    i: int,
)
    requires
        0 <= i < n <= statuses.len(),
        statuses[i].state is Ready,
        statuses[i].searchable_text is Some,
        exists|k: int| 0 <= k < profiles.len() && (#[trigger] profiles[k]).id == statuses[i].profile_id,
    ensures
        projected_texts(profiles, statuses, n).contains(statuses[i].searchable_text->Some_0),
    decreases n,
{
    let before = projected_texts(profiles, statuses, (n - 1) as nat);
    let now = projected_texts(profiles, statuses, n);
    let text = statuses[i].searchable_text->Some_0;
    names_stand_for_the_first(profiles, statuses[i].profile_id, profiles.len());
    if i < n - 1 {
        ready_projections_are_searched(profiles, statuses, (n - 1) as nat, i);
        let k = before.index_of(text);
        assert(before[k] == text);
        assert(now[k] == text);
    } else {
        assert(now[before.len() as int] == text);
    }
}

/// A projection after an attempt: ready, of the revision that was projected and with its
/// text, if the attempt succeeded; failed, with the reason, if it did not, and then it
/// keeps the revision and the text that it had. Nothing else of it changes but when it was
/// last tried.
pub proof fn attempts_settle_projections(
    status: ProjectionStatusModel,
    outcome: Result<(u64, Option<Seq<char>>), Seq<char>>,
    now_ms: i64,
)
    ensures
        ({
            let next = status.settled(outcome, now_ms);
            &&& next.node_id == status.node_id && next.profile_id == status.profile_id && next.attempts
                == status.attempts
            &&& next.updated_at_ms == now_ms
            &&& outcome matches Ok((revision, text)) ==> next.state is Ready && next.node_revision == revision
                && next.searchable_text == text && next.last_error == status.last_error
            &&& outcome matches Err(reason) ==> next.state is Failed && next.last_error == Some(reason)
                && next.node_revision == status.node_revision && next.searchable_text == status.searchable_text
        }),
{
}

/// A reply gives a vector if and only if it has as many values as the profile has
/// dimensions, all of them finite.
pub proof fn replies_give_vectors(reply: EmbeddingReplyModel, profile: EmbeddingProfileModel)
    ensures
        reply.fault(profile) is None <==> (reply matches EmbeddingReplyModel::Vector { length, finite } && finite
            && length == profile.dimension),
        reply matches EmbeddingReplyModel::Failed(reason) ==> reply.fault(profile) == Some(reason),
{
}

/// Prepared queries are used if their profiles are in use as they were, in their order, and
/// something is said of each of the others.
pub proof fn prepared_queries_are_sorted_out(
    in_use: Seq<PreparedProfileModel>,
    prepared: Seq<PreparedProfileModel>,
    n: nat,
    i: int,
)
    requires
        0 <= i < n <= prepared.len(),
        prepared.len() <= usize::MAX,
    ensures
        ({
            let (kept, said) = sorted_out(in_use, prepared, n);
            &&& kept.contains(i as usize) <==> in_use.contains(prepared[i])
            &&& kept.len() + said.len() == n
            &&& forall|k: int| 0 <= k < kept.len() ==> (#[trigger] kept[k]) < n
        }),
    decreases n,
{
    let m = (n - 1) as nat;
    let (before, told) = sorted_out(in_use, prepared, m);
    let (kept, said) = sorted_out(in_use, prepared, n);
    if m > 0 {
        prepared_queries_are_sorted_out(
            in_use,
            prepared,
            m,
            if i < m {
                i
            } else {
                0
            },
        );
    }
    assert forall|k: int| 0 <= k < kept.len() implies (#[trigger] kept[k]) < n by {
        if k < before.len() {
            assert(kept[k] == before[k]);
        }
    }
    if i < m {
        if before.contains(i as usize) {
            let k = before.index_of(i as usize);
            assert(kept[k] == i as usize);
        }
        if kept.contains(i as usize) {
            let k = kept.index_of(i as usize);
            assert(kept[k] == i as usize);
            if k < before.len() {
                assert(before[k] == i as usize);
            }
        }
    } else if in_use.contains(prepared[i]) {
        assert(kept[before.len() as int] == i as usize);
    } else if kept.contains(i as usize) {
        let k = kept.index_of(i as usize);
        assert(before[k] == i as usize);
    }
}

/// Reasons are joined by semicolons.
pub proof fn reasons_are_joined(reasons: Seq<Seq<char>>, n: nat)
    requires
        1 <= n < reasons.len(),
    ensures
        joined(reasons, 0).len() == 0,
        joined(reasons, 1) == reasons[0],
        joined(reasons, n + 1) == joined(reasons, n) + seq![';', ' '] + reasons[n as int],
{
    reveal_strlit("; ");
    assert("; "@ =~= seq![';', ' ']);
}

/// Whether one list has an entry of each key and value that another one has.
pub open spec fn covers(metadata: Seq<MetadataEntryModel>, wanted: Seq<MetadataEntryModel>) -> bool {
    forall|i: int| 0 <= i < wanted.len() ==> has_value(metadata, (#[trigger] wanted[i]).key, wanted[i].value)
}

/// Whether a value stands under a key.
pub open spec fn has_value(metadata: Seq<MetadataEntryModel>, key: Seq<char>, value: Seq<char>) -> bool {
    exists|j: int| 0 <= j < metadata.len() && (#[trigger] metadata[j]).key == key && metadata[j].value == value
}

/// A memory may be hit if it is of the kind that is asked for, was made no earlier and no
/// later than is asked for, and carries all that is asked for.
pub proof fn hits_are_what_is_asked_for(
    filter: VectorFilterModel,
    kind: u8,
    created_at_ms: i64,
    metadata: Seq<MetadataEntryModel>,
)
    ensures
        filter.matches(kind, created_at_ms, metadata) <==> {
            &&& filter.kind matches Some(wanted) ==> kind == wanted
            &&& filter.after_ms matches Some(after) ==> after <= created_at_ms
            &&& filter.before_ms matches Some(before) ==> created_at_ms <= before
            &&& covers(metadata, filter.metadata)
        },
{
    assert forall|i: int| 0 <= i < filter.metadata.len() implies holds_entry(metadata, #[trigger] filter.metadata[i])
        == has_value(metadata, filter.metadata[i].key, filter.metadata[i].value) by {
        let wanted = filter.metadata[i];
        if holds_entry(metadata, wanted) {
            let j = choose|j: int|
                0 <= j < metadata.len() && (#[trigger] metadata[j]).key == wanted.key && metadata[j].value
                    == wanted.value;
            assert(metadata[j].key == wanted.key);
        }
        if has_value(metadata, wanted.key, wanted.value) {
            let j = choose|j: int|
                0 <= j < metadata.len() && (#[trigger] metadata[j]).key == wanted.key && metadata[j].value
                    == wanted.value;
            assert(metadata[j].key == wanted.key);
        }
    }
    if filter.matches(kind, created_at_ms, metadata) {
        assert forall|i: int| 0 <= i < filter.metadata.len() implies has_value(
            metadata,
            (#[trigger] filter.metadata[i]).key,
            filter.metadata[i].value,
        ) by {
            assert(holds_entry(metadata, filter.metadata[i]));
        }
    }
    if covers(metadata, filter.metadata) {
        assert forall|i: int| 0 <= i < filter.metadata.len() implies holds_entry(
            metadata,
            #[trigger] filter.metadata[i],
        ) by {
            assert(has_value(metadata, filter.metadata[i].key, filter.metadata[i].value));
        }
    }
}

/// Setting a value changes it wherever it stands under its key, and nothing else.
pub proof fn values_are_reset(entries: Seq<MetadataEntryModel>, key: Seq<char>, value: Seq<char>, n: nat, i: int)
    requires
        0 <= i < n <= entries.len(),
    ensures
        reset_entries(entries, key, value, n).len() == n,
        reset_entries(entries, key, value, n)[i].key == entries[i].key,
        reset_entries(entries, key, value, n)[i].value == (if entries[i].key == key {
            value
        } else {
            entries[i].value
        }),
    decreases n,
{
    if n > 1 {
        values_are_reset(
            entries,
            key,
            value,
            (n - 1) as nat,
            if i < n - 1 {
                i
            } else {
                0
            },
        );
    } else {
        assert(reset_entries(entries, key, value, 0).len() == 0);
    }
}

/// A plain question is answered with what is known as of its instant: it looks for words as
/// well as for meanings, one step around what it finds, with nothing filtered and no
/// lawyer.
pub proof fn plain_questions_ask_for_everything(query: Seq<char>, as_of_ms: i64)
    ensures
        ({
            let asked = RecallRequestModel::plain(query, as_of_ms);
            &&& asked.query == query && asked.as_of_ms == as_of_ms
            &&& asked.lexical && asked.graph_depth == 1
            &&& asked.vector_profiles.len() == 0 && asked.min_vector_similarity_bits is None
            &&& asked.lawyer_profile is None
            &&& asked.filter.kinds.len() == 0 && asked.filter.metadata.len() == 0 && !asked.filter.require_verified
            &&& asked.opening() == Ok::<bool, RecallFault>(true)
        }),
{
}

/// A question is opened unless the similarity that it asks for is no number between zero
/// and one, and there is something to look for if it asks for at least one answer of at
/// least one candidate. As many memories are considered as the greater of the two numbers.
pub proof fn questions_are_opened(asked: RecallRequestModel)
    ensures
        asked.opening() is Err <==> (asked.min_vector_similarity_bits matches Some(bits) && !(bits <= 0x3f80_0000 || bits
            == 0x8000_0000)),
        asked.opening() matches Ok(looked_for) ==> (looked_for <==> asked.limit >= 1 && asked.candidate_limit >= 1),
        asked.considered() >= asked.limit && asked.considered() >= asked.candidate_limit,
        asked.considered() == asked.limit || asked.considered() == asked.candidate_limit,
{
}

} // verus!
