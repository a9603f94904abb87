//! The ways in which a session can fail.

use vstd::prelude::*;

verus! {

/// Why a session stopped.
#[derive(Clone, Copy, PartialEq, Eq, Debug, Structural)]
pub enum ReplError {
    /// The local time could not be read or does not fit a label.
    Clock,
    /// The catalog could not be listed, or the listing is not valid text.
    Catalog,
    /// The two timelines share no snapshot.
    NoPrecursor,
    /// The producer could not be started.
    ProducerSpawn,
    /// The consumer could not be started.
    ConsumerSpawn,
    /// The producer or the consumer ended with a status that is not accepted.
    Pipeline,
    /// An archive file could not be opened or copied.
    Io,
    /// The precursor record is missing or cannot be decoded.
    Metadata,
}

impl ReplError {
    /// The exit code that stands for this error: one code for each error, none of them 0.
    pub open spec fn code_of(self) -> int {
        match self {
            ReplError::Clock => 10,
            ReplError::Catalog => 11,
            ReplError::NoPrecursor => 12,
            ReplError::ProducerSpawn => 13,
            ReplError::ConsumerSpawn => 14,
            ReplError::Pipeline => 15,
            ReplError::Io => 16,
            ReplError::Metadata => 17,
        }
    }

    /// The exit code with which a process reports this error.
    pub fn exit_code(&self) -> (code: i32)
        ensures
            code == self.code_of(),
    {
        match self {
            ReplError::Clock => 10,
            ReplError::Catalog => 11,
            ReplError::NoPrecursor => 12,
            ReplError::ProducerSpawn => 13,
            ReplError::ConsumerSpawn => 14,
            ReplError::Pipeline => 15,
            ReplError::Io => 16,
            ReplError::Metadata => 17,
        }
    }

    /// The sentence that names this error.
    pub open spec fn message(self) -> Seq<char> {
        match self {
            ReplError::Clock => "the local time could not be determined"@,
            ReplError::Catalog => "the snapshot catalog could not be listed"@,
            ReplError::NoPrecursor => "no snapshot is common to both timelines"@,
            ReplError::ProducerSpawn => "the producer could not be started"@,
            ReplError::ConsumerSpawn => "the consumer could not be started"@,
            ReplError::Pipeline => "the transfer ended with a status that is not accepted"@,
            ReplError::Io => "the archive file could not be opened or copied"@,
            ReplError::Metadata => "the precursor record is missing or cannot be decoded"@,
        }
    }

    /// A sentence that names the error.
    pub fn describe(&self) -> (text: String)
        ensures
            text@ == self.message(),
    {
        let text = match self {
            ReplError::Clock => "the local time could not be determined",
            ReplError::Catalog => "the snapshot catalog could not be listed",
            ReplError::NoPrecursor => "no snapshot is common to both timelines",
            ReplError::ProducerSpawn => "the producer could not be started",
            ReplError::ConsumerSpawn => "the consumer could not be started",
            ReplError::Pipeline => "the transfer ended with a status that is not accepted",
            ReplError::Io => "the archive file could not be opened or copied",
            ReplError::Metadata => "the precursor record is missing or cannot be decoded",
        };
        String::from_str(text)
    }
}

/// No two errors share an exit code, and none reports success.
pub proof fn lemma_exit_codes_distinct(a: ReplError, b: ReplError)
    ensures
        a.code_of() != 0,
        a != b ==> a.code_of() != b.code_of(),
{
}

} // verus!
