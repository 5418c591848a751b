//! What a sync did.

use crate::bytes::copy_bytes;
use crate::group_message::V1;
use vstd::prelude::*;

verus! {

/// Names a message that was processed.
#[derive(Debug, Clone, PartialEq, Eq)]
pub struct MessageIdentifier {
    pub cursor: u64,
    pub group_id: Vec<u8>,
    pub created_ns: u64,
}

impl MessageIdentifier {
    /// Whether this names the message `msg`.
    pub open spec fn names(self, msg: V1) -> bool {
        &&& self.cursor == msg.id
        &&& self.group_id@ == msg.group_id@
        &&& self.created_ns == msg.created_ns
    }

    /// The name of `msg`.
    pub fn of(msg: &V1) -> (identifier: MessageIdentifier)
        ensures
            identifier.names(*msg),
    {
        MessageIdentifier {
            cursor: msg.id,
            group_id: copy_bytes(msg.group_id.as_slice()),
            created_ns: msg.created_ns,
        }
    }
}

/// The messages that a sync came across.
#[derive(Debug, Clone, PartialEq, Eq)]
pub struct ProcessSummary {
    /// the messages that were new to this client
    pub new_messages: Vec<MessageIdentifier>,
    /// the cursor of the latest of all messages that were processed, new or not
    pub last: Option<u64>,
}

/// Whether `cursor` is the lowest cursor in `messages`.
pub open spec fn is_lowest(cursor: u64, messages: Seq<MessageIdentifier>) -> bool {
    &&& exists|i: int| 0 <= i < messages.len() && #[trigger] messages[i].cursor == cursor
    &&& forall|i: int| 0 <= i < messages.len() ==> cursor <= #[trigger] messages[i].cursor
}

impl ProcessSummary {
    /// Whether `next` is where a stream goes on that was not able to load the message it
    /// synced for: at the earliest new message, or else at the latest processed one, or, where
    /// nothing was processed, at zero.
    pub open spec fn goes_on_at(self, next: u64) -> bool {
        if self.new_messages@.len() > 0 {
            is_lowest(next, self.new_messages@)
        } else {
            next == (match self.last {
                Some(cursor) => cursor,
                None => 0u64,
            })
        }
    }

    /// The cursor of the earliest new message.
    pub fn first_new(&self) -> (first: Option<u64>)
        ensures
            first is Some <==> self.new_messages@.len() > 0,
            first matches Some(cursor) ==> is_lowest(cursor, self.new_messages@),
    {
        if self.new_messages.len() == 0 {
            return None;
        }
        let mut lowest: u64 = self.new_messages[0].cursor;
        let mut i: usize = 1;
        while i < self.new_messages.len()
            invariant
                1 <= i <= self.new_messages@.len(),
                exists|j: int|
                    0 <= j < i && #[trigger] self.new_messages@[j].cursor == lowest,
                forall|j: int| 0 <= j < i ==> lowest <= #[trigger] self.new_messages@[j].cursor,
            decreases self.new_messages@.len() - i,
        {
            if self.new_messages[i].cursor < lowest {
                lowest = self.new_messages[i].cursor;
            }
            i = i + 1;
        }
        Some(lowest)
    }

    /// Where a stream goes on that was not able to load the message it synced for.
    pub fn next(&self) -> (next: u64)
        ensures
            self.goes_on_at(next),
    {
        match self.first_new() {
            Some(cursor) => cursor,
            None => self.last.unwrap_or(0),
        }
    }
}

/// The outcome of a sync.
#[derive(Debug, Clone, PartialEq, Eq)]
pub struct SyncSummary {
    pub process: ProcessSummary,
}

impl SyncSummary {
    /// Whether the sync came across `msg`, as a new message, and nothing else.
    pub open spec fn is_single(self, msg: MessageIdentifier) -> bool {
        &&& self.process.new_messages@ == seq![msg]
        &&& self.process.last == Some(msg.cursor)
    }

    /// Whether the sync came across nothing.
    pub open spec fn is_empty(self) -> bool {
        &&& self.process.new_messages@.len() == 0
        &&& self.process.last is None
    }

    /// The outcome of a sync of one message.
    pub fn single(msg: MessageIdentifier) -> (summary: SyncSummary)
        ensures
            summary.is_single(msg),
    {
        let cursor: u64 = msg.cursor;
        let mut new_messages: Vec<MessageIdentifier> = Vec::new();
        new_messages.push(msg);
        assert(new_messages@ =~= seq![msg]);
        SyncSummary { process: ProcessSummary { new_messages, last: Some(cursor) } }
    }
}

impl Default for SyncSummary {
    /// The outcome of a sync that came across nothing.
    fn default() -> (summary: SyncSummary)
        ensures
            summary.is_empty(),
    {
        SyncSummary { process: ProcessSummary { new_messages: Vec::new(), last: None } }
    }
}

} // verus!
