//! What a store remembers of itself: its era, and the key under which it digests.
use vstd::prelude::*;
use crate::bytes::{append_bytes, be_len};
use crate::fault::{CorruptFault, MemoryError, MemoryResult, corrupt};
use crate::ids::{EraId, Ulid};
use crate::keybytes::{id_bytes, id_key};
use crate::message::ulid_text;
use crate::naming::{texts_read_back, ulid_read};
use crate::store::{MemoryDatabase, StoreModel};
use crate::table::opt_view;
use crate::wordlist::same_text;

verus! {

/// The name of the format that a store is kept in.
pub const MEMORY_STORE_FORMAT_ID: &'static str = "mmdb-native-memory-v1";

/// What a store remembers of itself.
#[derive(Clone, Debug, PartialEq, Eq)]
pub struct NativeMetadata {
    pub store_era_id: String,
    pub digest_key: [u8; 32],
}

/// What a [`NativeMetadata`] holds.
#[verifier::ext_equal]
pub struct NativeMetadataModel {
    pub store_era_id: Seq<char>,
    pub digest_key: Seq<u8>,
}

impl View for NativeMetadata {
    type V = NativeMetadataModel;

    open spec fn view(&self) -> NativeMetadataModel {
        NativeMetadataModel { store_era_id: self.store_era_id@, digest_key: self.digest_key@ }
    }
}

/// Why a store cannot be opened with what was found in it.
#[verifier::ext_equal]
pub enum MetadataFaultModel {
    EraMismatch { outer: Seq<char>, internal: Seq<char> },
    Missing,
}

impl MetadataFaultModel {
    /// Whether a refusal says so.
    pub open spec fn told_by(self, error: MemoryError) -> bool {
        match (self, error) {
            (
                MetadataFaultModel::EraMismatch { outer, internal },
                MemoryError::StoreEraMismatch { outer: told_outer, internal: told_internal },
            ) => told_outer@ == outer && told_internal@ == internal,
            (MetadataFaultModel::Missing, MemoryError::Corrupt(CorruptFault::MetadataMissing)) => true,
            _ => false,
        }
    }
}

/// What a store is to remember of itself, by what was found in it. A store in which
/// nothing was found may start anew only if nothing else is there either.
pub open spec fn settled_metadata(
    found: Option<NativeMetadataModel>,
    outer_store_era_id: Seq<char>,
    allow_initialization: bool,
    first: Ulid,
    second: Ulid,
) -> Result<NativeMetadataModel, MetadataFaultModel> {
    match found {
        Some(metadata) => if metadata.store_era_id == outer_store_era_id {
            Ok(metadata)
        } else {
            Err(
                MetadataFaultModel::EraMismatch { outer: outer_store_era_id, internal: metadata.store_era_id },
            )
        },
        None => if allow_initialization {
            Ok(
                NativeMetadataModel {
                    store_era_id: outer_store_era_id,
                    digest_key: id_bytes(first) + id_bytes(second),
                },
            )
        } else {
            Err(MetadataFaultModel::Missing)
        },
    }
}

fn joined_key(first: Ulid, second: Ulid) -> (r: [u8; 32])
    ensures
        r@ == id_bytes(first) + id_bytes(second),
{
    let mut bytes: Vec<u8> = id_key(first);
    let tail: Vec<u8> = id_key(second);
    append_bytes(&mut bytes, tail.as_slice());
    proof {
        be_len(first.0 as int, 16);
        be_len(second.0 as int, 16);
    }
    let mut key: [u8; 32] = [0u8; 32];
    for i in 0..32usize
        invariant
            bytes@.len() == 32,
            forall|j: int| 0 <= j < i ==> key@[j] == bytes@[j],
    {
        key[i] = bytes[i];
    }
    assert(key@ =~= bytes@);
    key
}

/// Settles what a store remembers of itself, with two fresh identifiers for the key of a
/// new one.
pub fn settle_metadata(
    found: Option<NativeMetadata>,
    outer_store_era_id: &str,
    allow_initialization: bool,
    first: Ulid,
    second: Ulid,
) -> (r: MemoryResult<NativeMetadata>)
    ensures
        match (
            r,
            settled_metadata(opt_view(found), outer_store_era_id@, allow_initialization, first, second),
        ) {
            (Ok(metadata), Ok(owed)) => metadata@ == owed,
            (Err(error), Err(fault)) => fault.told_by(error),
            _ => false,
        },
{
    match found {
        Some(metadata) => {
            if same_text(metadata.store_era_id.as_str(), outer_store_era_id) {
                Ok(metadata)
            } else {
                Err(
                    MemoryError::StoreEraMismatch {
                        outer: String::from_str(outer_store_era_id),
                        internal: metadata.store_era_id,
                    },
                )
            }
        },
        None => {
            if !allow_initialization {
                return Err(MemoryError::Corrupt(CorruptFault::MetadataMissing));
            }
            Ok(
                NativeMetadata {
                    store_era_id: String::from_str(outer_store_era_id),
                    digest_key: joined_key(first, second),
                },
            )
        },
    }
}

/// The era that a store's marker names.
pub open spec fn era_named(outer_store_era_id: Seq<char>) -> MemoryResult<EraId> {
    match ulid_read(outer_store_era_id) {
        Ok(id) => Ok(EraId(Ulid(id))),
        Err(fault) => corrupt(CorruptFault::EraNotUlid(fault)),
    }
}

/// Reads the era that a store's marker names.
pub fn store_era(outer_store_era_id: &str) -> (r: MemoryResult<EraId>)
    ensures
        r == era_named(outer_store_era_id@),
{
    match Ulid::read(outer_store_era_id) {
        Ok(id) => Ok(EraId(id)),
        Err(fault) => Err(MemoryError::Corrupt(CorruptFault::EraNotUlid(fault))),
    }
}

impl MemoryDatabase {
    /// Opens a store by its marker and by what was found in it: empty yet, in the era that the
    /// marker names, with the key that the store remembers. What the store is to remember of
    /// itself comes with it.
    pub fn open(
        outer_store_era_id: &str,
        found: Option<NativeMetadata>,
        allow_initialization: bool,
        first: Ulid,
        second: Ulid,
    ) -> (r: MemoryResult<(MemoryDatabase, NativeMetadata)>)
        ensures
            match (
                era_named(outer_store_era_id@),
                settled_metadata(opt_view(found), outer_store_era_id@, allow_initialization, first, second),
            ) {
                (Err(refusal), _) => r matches Err(error) && error == refusal,
                (Ok(_), Err(fault)) => r matches Err(error) && fault.told_by(error),
                (Ok(era), Ok(owed)) => r matches Ok((store, metadata)) && metadata@ == owed && store@
                    == StoreModel::pristine(era, metadata.digest_key),
            },
    {
        let era = store_era(outer_store_era_id)?;
        let metadata = settle_metadata(found, outer_store_era_id, allow_initialization, first, second)?;
        let store = MemoryDatabase::pristine(era, metadata.digest_key);
        Ok((store, metadata))
    }
}

/// The era of a store is stable: a marker that was written for an era names that era.
pub proof fn eras_read_back(era: EraId)
    ensures
        era_named(ulid_text(era.0.0)) == MemoryResult::Ok(era),
{
    texts_read_back(era.0.0);
}

/// A store that was settled once stays as it is: settling again in the same era changes
/// nothing, and in another era it is refused.
pub proof fn metadata_is_settled_once(
    found: Option<NativeMetadataModel>,
    era: Seq<char>,
    other: Seq<char>,
    allowed: bool,
    again: bool,
    first: Ulid,
    second: Ulid,
    third: Ulid,
    fourth: Ulid,
)
    requires
        settled_metadata(found, era, allowed, first, second) is Ok,
    ensures
        ({
            let settled = settled_metadata(found, era, allowed, first, second)->Ok_0;
            settled_metadata(Some(settled), other, again, third, fourth) == (if other == era {
                Result::<NativeMetadataModel, MetadataFaultModel>::Ok(settled)
            } else {
                Err(MetadataFaultModel::EraMismatch { outer: other, internal: era })
            })
        }),
{
}

} // verus!
