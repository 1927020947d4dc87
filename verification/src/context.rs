//! Who acts, and when something holds.
use vstd::prelude::*;
use crate::fault::{InputFault, MemoryError, MemoryResult, invalid};
use crate::ids::OperationId;
use crate::records::evidence::Actor;

verus! {

/// One attempt of an actor to change the store.
#[derive(Clone, Copy, Debug, PartialEq, Eq, Structural)]
pub struct OperationContext {
    pub id: OperationId,
    pub actor: Actor,
}

impl OperationContext {
    /// A new operation of `actor`, under a freshly drawn identifier.
    pub fn new(actor: Actor) -> (r: Self)
        ensures
            r.actor == actor,
    {
        OperationContext { id: OperationId::new(), actor }
    }
}

/// When a fact was observed, and over which half-open interval it is valid.
#[derive(Clone, Copy, Debug, PartialEq, Eq, Structural)]
pub struct TemporalFacts {
    pub observed_at_ms: i64,
    pub source_at_ms: Option<i64>,
    pub valid_from_ms: Option<i64>,
    pub valid_to_ms: Option<i64>,
}

impl TemporalFacts {
    /// A fact known only by when it was observed.
    pub fn observed_at(observed_at_ms: i64) -> (r: Self)
        ensures
            r == (TemporalFacts {
                observed_at_ms,
                source_at_ms: None,
                valid_from_ms: None,
                valid_to_ms: None,
            }),
    {
        TemporalFacts { observed_at_ms, source_at_ms: None, valid_from_ms: None, valid_to_ms: None }
    }

    /// Whether the valid interval is open on some side, or has an instant in it.
    pub open spec fn coherent(self) -> bool {
        match (self.valid_from_ms, self.valid_to_ms) {
            (Some(from), Some(to)) => from < to,
            _ => true,
        }
    }

    pub fn validate(self) -> (r: MemoryResult<()>)
        ensures
            r == (if self.coherent() {
                Ok(())
            } else {
                invalid(InputFault::ValidTimeInterval)
            }),
    {
        if let Some(from) = self.valid_from_ms {
            if let Some(to) = self.valid_to_ms {
                if from >= to {
                    return Err(MemoryError::InvalidInput(InputFault::ValidTimeInterval));
                }
            }
        }
        Ok(())
    }

    /// Whether the fact is valid at an instant.
    pub open spec fn valid_at(self, at_ms: i64) -> bool {
        &&& match self.valid_from_ms {
            Some(from) => from <= at_ms,
            None => true,
        }
        &&& match self.valid_to_ms {
            Some(to) => at_ms < to,
            None => true,
        }
    }

    pub fn contains_valid_time(self, at_ms: i64) -> (r: bool)
        ensures
            r == self.valid_at(at_ms),
    {
        let started = match self.valid_from_ms {
            Some(from) => at_ms >= from,
            None => true,
        };
        let lasting = match self.valid_to_ms {
            Some(to) => at_ms < to,
            None => true,
        };
        started && lasting
    }

    /// A fact with incoherent valid time is valid at no instant.
    pub proof fn incoherent_is_never_valid(self, at_ms: i64)
        requires
            !self.coherent(),
        ensures
            !self.valid_at(at_ms),
    {
    }
}

} // verus!
