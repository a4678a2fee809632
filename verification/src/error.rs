//! What can be wrong with the bytes of a transaction.

use vstd::prelude::*;

verus! {

/// A field of fixed size.
#[derive(Clone, Copy, Debug, PartialEq, Eq, Structural)]
pub enum Field {
    Recipient,
    Sender,
    Signature,
}

/// Why bytes were not read as a transaction.
#[derive(Clone, Copy, Debug, PartialEq, Eq, Structural)]
pub enum DecodeError {
    /// The bytes are no envelope of eight items.
    Format,
    /// An item has not the size of the field that it stands for.
    FieldLength(Field),
}

impl DecodeError {
    /// The message of the error.
    pub open spec fn text(self) -> Seq<char> {
        match self {
            DecodeError::Format => "Parameters error!"@,
            DecodeError::FieldLength(Field::Recipient) => "Recipient error!"@,
            DecodeError::FieldLength(Field::Sender) => "Sender error!"@,
            DecodeError::FieldLength(Field::Signature) => "Signature error!"@,
        }
    }

    /// The message of the error.
    pub fn message(&self) -> (text: &'static str)
        ensures
            text@ == self.text(),
    {
        match self {
            DecodeError::Format => "Parameters error!",
            DecodeError::FieldLength(Field::Recipient) => "Recipient error!",
            DecodeError::FieldLength(Field::Sender) => "Sender error!",
            DecodeError::FieldLength(Field::Signature) => "Signature error!",
        }
    }
}

} // verus!
