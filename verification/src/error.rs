use vstd::prelude::*;

verus! {

/// Why a particle/timestep request cannot be answered. Every variant is a
/// malformed-input condition and aborts the whole request: no partial
/// result is ever produced from a shard that failed to decode.
#[derive(Clone, Copy, PartialEq, Eq, Structural, Debug)]
pub enum CpoError {
    /// A compressed grain-data shard could not be decompressed.
    UndecodableStream,
    /// A shard did not decode as a delimited table.
    MalformedTable,
    /// A table row carries no particle id, or one that is not a number.
    UnparsableField,
    /// A row of the time-index file carries the marker but no time field.
    MissingTimeField,
}

impl CpoError {
    /// What `describe` returns for each variant.
    pub open spec fn spec_describe(self) -> Seq<char> {
        match self {
            CpoError::UndecodableStream => "could not decompress data stream"@,
            CpoError::MalformedTable => "data stream is not a delimited table"@,
            CpoError::UnparsableField => "row holds no parsable particle id"@,
            CpoError::MissingTimeField => "time-index row holds no time field"@,
        }
    }

    /// A short description of the failure, for the caller's log message.
    pub fn describe(&self) -> (r: String)
        ensures
            r@ == self.spec_describe(),
    {
        match self {
            CpoError::UndecodableStream => "could not decompress data stream".to_owned(),
            CpoError::MalformedTable => "data stream is not a delimited table".to_owned(),
            CpoError::UnparsableField => "row holds no parsable particle id".to_owned(),
            CpoError::MissingTimeField => "time-index row holds no time field".to_owned(),
        }
    }
}

} // verus!
