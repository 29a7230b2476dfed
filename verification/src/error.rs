//! The ways in which a run fails.

use vstd::prelude::*;
use vstd::string::to_string_from_display_ensures;

verus! {

/// Why no document was produced. Each failure carries a message that
/// describes it.
#[derive(Debug, PartialEq, Eq)]
pub enum LootifierError {
    /// The load order listing could not be read.
    SourceUnreadable(String),
    /// The document could not be written to its destination.
    DestinationUnwritable(String),
    /// The rule set could not be written as YAML.
    SerializationFailure(String),
}

impl LootifierError {
    /// The message that the failure carries.
    pub open spec fn message_of(self) -> Seq<char> {
        match self {
            LootifierError::SourceUnreadable(message) => message@,
            LootifierError::DestinationUnwritable(message) => message@,
            LootifierError::SerializationFailure(message) => message@,
        }
    }

    /// The failure for an error of the YAML serializer. Its message is the
    /// text that the error displays as.
    pub fn serialization(error: &serde_yaml::Error) -> (failure: LootifierError)
        ensures
            failure is SerializationFailure,
            to_string_from_display_ensures::<serde_yaml::Error>(
                error,
                failure->SerializationFailure_0,
            ),
    {
        LootifierError::SerializationFailure(error.to_string())
    }

    /// The message that the failure carries.
    pub fn message(&self) -> (text: String)
        ensures
            text@ == self.message_of(),
    {
        match self {
            LootifierError::SourceUnreadable(message) => message.clone(),
            LootifierError::DestinationUnwritable(message) => message.clone(),
            LootifierError::SerializationFailure(message) => message.clone(),
        }
    }
}

} // verus!
