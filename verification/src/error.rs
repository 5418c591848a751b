//! What can go wrong in a message stream.

use crate::summary::MessageIdentifier;
use vstd::prelude::*;

verus! {

/// The lowercase hexadecimal digit `d`.
pub open spec fn hex_digit(d: int) -> char {
    seq!['0', '1', '2', '3', '4', '5', '6', '7', '8', '9', 'a', 'b', 'c', 'd', 'e', 'f'][d]
}

/// A byte string in lowercase hexadecimal, two digits for each byte, the high one first.
pub open spec fn hex_text(data: Seq<u8>) -> Seq<char> {
    Seq::new(
        2 * data.len(),
        |i: int|
            if i % 2 == 0 {
                hex_digit(data[i / 2] as int / 16)
            } else {
                hex_digit(data[i / 2] as int % 16)
            },
    )
}

/// `hex::encode`: gives each byte as two lowercase hexadecimal digits, high before low.
/// The text has to fit in one allocation.
#[verifier::external_body]
fn hex_encode(data: &Vec<u8>) -> (text: String)
    requires
        2 * data@.len() <= isize::MAX,
    ensures
        text@ == hex_text(data@),
{
    hex::encode(data)
}

/// The errors that a message stream raises by itself.
#[derive(Debug, Clone, PartialEq, Eq)]
pub enum MessageStreamError {
    /// a message came for a group that the stream does not follow
    NotSubscribed(Vec<u8>),
    /// a message came in a version that cannot be read
    InvalidPayload,
}

impl MessageStreamError {
    /// Whether it can help to try again: it never does.
    pub fn is_retryable(&self) -> (retryable: bool)
        ensures
            retryable == false,
    {
        match self {
            MessageStreamError::NotSubscribed(_) | MessageStreamError::InvalidPayload => false,
        }
    }

    /// The text of the error.
    pub open spec fn text(self) -> Seq<char> {
        match self {
            MessageStreamError::NotSubscribed(id) => "received message for not subscribed group "@
                + hex_text(id@),
            MessageStreamError::InvalidPayload => "Invalid Payload"@,
        }
    }

    /// The error as text. The text has to fit in one allocation.
    pub fn display(&self) -> (text: String)
        requires
            self matches MessageStreamError::NotSubscribed(id) ==> 42 + 2 * id@.len() <= isize::MAX,
        ensures
            text@ == self.text(),
    {
        match self {
            MessageStreamError::NotSubscribed(id) => String::from_str(
                "received message for not subscribed group ",
            ).concat(hex_encode(id).as_str()),
            MessageStreamError::InvalidPayload => String::from_str("Invalid Payload"),
        }
    }
}

/// Why a message could not be processed as an answer to an intent of this client.
#[derive(Debug)]
pub enum ProcessIntentError<E> {
    /// the message was processed before
    MessageAlreadyProcessed(MessageIdentifier),
    Other(E),
}

/// Why a message could not be processed by its group.
#[derive(Debug)]
pub enum GroupMessageProcessingError<E> {
    /// the message was processed before
    MessageAlreadyProcessed(MessageIdentifier),
    ProcessIntent(ProcessIntentError<E>),
    Other(E),
}

/// The errors of a subscription. `E` are those of the client underneath.
#[derive(Debug)]
pub enum SubscribeError<E> {
    /// a request or the local database failed
    Client(E),
    /// the subscription handed out an error in place of a message
    BoxError(E),
    /// a group could not process a message
    ReceiveGroup(GroupMessageProcessingError<E>),
    MessageStream(MessageStreamError),
}

} // verus!
