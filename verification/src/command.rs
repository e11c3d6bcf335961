//! The command envelope: a closed set of command variants, each reduced to a
//! `(kind, payload)` pair for column storage and reconstructed from that pair
//! on read. Decoding fails with a [`DecodeError`] when the kind is unknown or
//! the payload does not have the shape the kind implies.

use vstd::prelude::*;
use vstd::string::StringExecFns;

verus! {

/// A reference to the branch a command acts on.
pub type BranchRef = u64;

/// A structured value tree (scalars, sequences, string-keyed mappings), the
/// shape of the job table's `data` column. Each command kind stores its
/// payload as one such value; the schema under each kind is defined by the
/// command variant, not by this type.
pub enum DataValue {
    Null,
    Bool(bool),
    UInt(u64),
    Int(i64),
    Text(String),
    List(Vec<DataValue>),
    Object(Vec<(String, DataValue)>),
}

/// A command a producer can enqueue. The set of variants is closed but grows
/// in code; encoding and decoding go through an exhaustive match, so adding a
/// variant is a localized, compile-time-checked change that leaves the wire
/// shape of existing variants untouched.
#[derive(Debug, Clone, Copy, PartialEq, Eq, Structural)]
pub enum JobCommand {
    /// Synchronize metadata of a branch.
    SyncBranch(BranchRef),
}

/// Why a stored `(kind, payload)` pair failed to decode as a [`JobCommand`].
#[derive(Debug, Clone, Copy, PartialEq, Eq, Structural)]
pub enum DecodeError {
    /// The kind tag names no known command variant.
    UnknownKind,
    /// The payload does not match the schema implied by the kind.
    InvalidPayload,
}

/// The kind tag under which a command is stored.
pub open spec fn spec_kind(c: JobCommand) -> Seq<char> {
    match c {
        JobCommand::SyncBranch(_) => "sync-branch"@,
    }
}

/// The payload under which a command is stored.
pub open spec fn spec_payload(c: JobCommand) -> DataValue {
    match c {
        JobCommand::SyncBranch(b) => DataValue::UInt(b),
    }
}

/// The command a stored `(kind, payload)` pair decodes as, or the exact
/// error when it decodes as none.
pub open spec fn spec_decode(kind: Seq<char>, data: DataValue) -> Result<JobCommand, DecodeError> {
    if kind == "sync-branch"@ {
        match data {
            DataValue::UInt(b) => Ok(JobCommand::SyncBranch(b)),
            _ => Err(DecodeError::InvalidPayload),
        }
    } else {
        Err(DecodeError::UnknownKind)
    }
}

impl JobCommand {
    /// Reduce a command to the `(kind, payload)` pair it is stored as.
    /// Deterministic and total over all variants.
    pub fn serialize(&self) -> (r: (String, DataValue))
        ensures
            r.0@ == spec_kind(*self),
            r.1 == spec_payload(*self),
    {
        match self {
            JobCommand::SyncBranch(b) => (String::from_str("sync-branch"), DataValue::UInt(*b)),
        }
    }

    /// Reconstruct a command from a stored `(kind, payload)` pair, or say
    /// exactly why the pair decodes as no command.
    pub fn deserialize(kind: &str, data: &DataValue) -> (r: Result<JobCommand, DecodeError>)
        ensures
            r == spec_decode(kind@, *data),
    {
        let k = String::from_str(kind);
        let sync_branch = String::from_str("sync-branch");
        if k == sync_branch {
            match data {
                DataValue::UInt(b) => Ok(JobCommand::SyncBranch(*b)),
                _ => Err(DecodeError::InvalidPayload),
            }
        } else {
            Err(DecodeError::UnknownKind)
        }
    }
}

/// Round trip: for every constructible command, decoding the pair the
/// command serializes to yields the command back.
pub proof fn lemma_round_trip(c: JobCommand)
    ensures
        spec_decode(spec_kind(c), spec_payload(c)) == Ok::<JobCommand, DecodeError>(c),
{
}

} // verus!
