//! Messages of a group, as they come from the network and as they are stored.

use vstd::prelude::*;

verus! {

/// A message of the first version of the wire format.
#[derive(Debug, Clone, PartialEq, Eq)]
pub struct V1 {
    /// the position in the backend topic
    pub id: u64,
    /// when the backend received the message
    pub created_ns: u64,
    pub group_id: Vec<u8>,
    /// the encrypted payload
    pub data: Vec<u8>,
    pub sender_hmac: Vec<u8>,
}

/// The versions of the wire format that this client can read.
#[derive(Debug, Clone, PartialEq, Eq)]
pub enum Version {
    V1(V1),
}

/// A message from the network. A version that the client does not know how to read
/// leaves `version` empty.
#[derive(Debug, Clone, PartialEq, Eq)]
pub struct GroupMessage {
    pub version: Option<Version>,
}

impl GroupMessage {
    /// The readable content of the message.
    pub open spec fn v1(self) -> Option<V1> {
        match self.version {
            Some(Version::V1(value)) => Some(value),
            None => None,
        }
    }

    /// The position of the message in the backend topic, where the message can be read.
    pub open spec fn cursor(self) -> Option<u64> {
        match self.v1() {
            Some(value) => Some(value.id),
            None => None,
        }
    }
}

/// A decrypted message out of the local database.
#[derive(Debug, Clone, PartialEq, Eq)]
pub struct StoredGroupMessage {
    pub group_id: Vec<u8>,
    pub decrypted_message_bytes: Vec<u8>,
    /// the position in the backend topic, where it is known
    pub sequence_id: Option<i64>,
}

/// Takes the readable content out of a message.
pub fn extract_message_v1(message: GroupMessage) -> (value: Option<V1>)
    ensures
        value == message.v1(),
{
    match message.version {
        Some(Version::V1(value)) => Some(value),
        _ => None,
    }
}

/// The position of a message in the backend topic, where the message can be read.
pub fn extract_message_cursor(message: &GroupMessage) -> (cursor: Option<u64>)
    ensures
        cursor == message.cursor(),
{
    match &message.version {
        Some(Version::V1(value)) => Some(value.id),
        _ => None,
    }
}

} // verus!
