//! The error taxonomy of the translation.  Every failure is terminal for the
//! generation call that raised it; no partial output is returned.

use vstd::prelude::*;

verus! {

/// Why a resolution call failed.
#[derive(Debug, Clone, Copy, PartialEq, Eq, Structural)]
pub enum Error {
    NoMetaDataForType,
    NoNameForType,
    NoSubSchemaForType,
    NoObjectPartFound,
    TypeIsNoRealType,
    NoTypeSet,
    EnumHasNoTypes,
    ExternalTypeNotAvailable,
    SimpleEnumNotSimple,
}

/// The descriptive text of each error kind.
pub open spec fn error_message(e: Error) -> Seq<char> {
    match e {
        Error::NoMetaDataForType => "The type was expected to have metadata but this was not found"@,
        Error::NoNameForType => "The type did not have a useable typename, nor could one be generated"@,
        Error::NoSubSchemaForType => "The type was expected to have subschema's, but none found"@,
        Error::NoObjectPartFound => "The type was expected to have a object part, but none found"@,
        Error::TypeIsNoRealType => "The type doesn't have a good definition."@,
        Error::NoTypeSet => "The type was expected to have the instance_type field, but none found "@,
        Error::EnumHasNoTypes => "No suitable type found for one of the variants of the enum"@,
        Error::ExternalTypeNotAvailable => "An external type was referenced, but it was not found"@,
        Error::SimpleEnumNotSimple => "An enum was expected to not store any values, but it does"@,
    }
}

impl Error {
    /// A human-readable description of the error.
    pub fn message(&self) -> (m: &'static str)
        ensures
            m@ == error_message(*self),
    {
        match self {
            Error::NoMetaDataForType => "The type was expected to have metadata but this was not found",
            Error::NoNameForType => "The type did not have a useable typename, nor could one be generated",
            Error::NoSubSchemaForType => "The type was expected to have subschema's, but none found",
            Error::NoObjectPartFound => "The type was expected to have a object part, but none found",
            Error::TypeIsNoRealType => "The type doesn't have a good definition.",
            Error::NoTypeSet => "The type was expected to have the instance_type field, but none found ",
            Error::EnumHasNoTypes => "No suitable type found for one of the variants of the enum",
            Error::ExternalTypeNotAvailable => "An external type was referenced, but it was not found",
            Error::SimpleEnumNotSimple => "An enum was expected to not store any values, but it does",
        }
    }
}

} // verus!
