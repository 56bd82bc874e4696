//! What can go wrong in the index, and the message that each failure carries.
use vstd::prelude::*;
use vstd::string::*;

use crate::text::join2;

verus! {

/// A failure of the index.
#[derive(Clone, Debug, PartialEq, Eq)]
pub enum IndexError {
    /// The schema declares no field at all.
    EmptySchema,
    /// The schema declares a field of a type that does not exist.
    UnknownFieldType(String),
    /// The schema declares no text field.
    NoTextField,
    /// A name that the schema does not declare.
    UnknownField(String),
    /// A number that is not an integer of 64 bits, as it was written.
    NotInteger(String),
    /// A JSON object where a value is expected.
    UnsupportedValue,
    /// Text that is not the JSON that is expected, with the parser's message.
    Json(String),
    /// A refusal of the indexer, with its message.
    Indexer(String),
}

/// What an [`IndexError`] stands for.
pub enum IndexFault {
    EmptySchema,
    UnknownFieldType(Seq<char>),
    NoTextField,
    UnknownField(Seq<char>),
    NotInteger(Seq<char>),
    UnsupportedValue,
    Json(Seq<char>),
    Indexer(Seq<char>),
}

impl View for IndexError {
    type V = IndexFault;

    open spec fn view(&self) -> IndexFault {
        match *self {
            IndexError::EmptySchema => IndexFault::EmptySchema,
            IndexError::UnknownFieldType(t) => IndexFault::UnknownFieldType(t@),
            IndexError::NoTextField => IndexFault::NoTextField,
            IndexError::UnknownField(n) => IndexFault::UnknownField(n@),
            IndexError::NotInteger(n) => IndexFault::NotInteger(n@),
            IndexError::UnsupportedValue => IndexFault::UnsupportedValue,
            IndexError::Json(m) => IndexFault::Json(m@),
            IndexError::Indexer(m) => IndexFault::Indexer(m@),
        }
    }
}

/// The message of a failure.
pub open spec fn fault_message(fault: IndexFault) -> Seq<char> {
    match fault {
        IndexFault::EmptySchema => "schema must declare at least one field"@,
        IndexFault::UnknownFieldType(t) => "unknown field type: "@ + t,
        IndexFault::NoTextField => "schema must declare at least one text field"@,
        IndexFault::UnknownField(n) => "unknown field: "@ + n,
        IndexFault::NotInteger(n) => "only integer numbers are supported, got "@ + n,
        IndexFault::UnsupportedValue => "unsupported value type"@,
        IndexFault::Json(m) => m,
        IndexFault::Indexer(m) => m,
    }
}

impl IndexError {
    /// The message of this failure.
    pub fn message(&self) -> (r: String)
        ensures
            r@ == fault_message(self@),
    {
        match self {
            IndexError::EmptySchema => String::from_str("schema must declare at least one field"),
            IndexError::UnknownFieldType(t) => join2("unknown field type: ", t.as_str()),
            IndexError::NoTextField => String::from_str(
                "schema must declare at least one text field",
            ),
            IndexError::UnknownField(n) => join2("unknown field: ", n.as_str()),
            IndexError::NotInteger(n) => join2(
                "only integer numbers are supported, got ",
                n.as_str(),
            ),
            IndexError::UnsupportedValue => String::from_str("unsupported value type"),
            IndexError::Json(m) => m.clone(),
            IndexError::Indexer(m) => m.clone(),
        }
    }
}

} // verus!
