//! Processing one message of the stream.
//!
//! The requests and the database accesses that this takes are made by the caller:
//! [`ProcessMessageFuture::process`] says which one is next, and is told what came of it.

use crate::bytes::{as_signed, copy_bytes, to_signed};
use crate::error::{GroupMessageProcessingError, ProcessIntentError, SubscribeError};
use crate::group_message::{StoredGroupMessage, V1};
use crate::summary::{MessageIdentifier, SyncSummary};
use vstd::prelude::*;

verus! {

/// Future that processes a group message from the network.
#[derive(Debug)]
pub struct ProcessMessageFuture<C> {
    pub client: C,
    pub msg: V1,
}

/// The processed message.
#[derive(Debug, Clone, PartialEq, Eq)]
pub struct ProcessedMessage {
    /// the message out of the database
    pub message: Option<StoredGroupMessage>,
    pub group_id: Vec<u8>,
    /// where the stream goes on
    pub next_message: Option<u64>,
    /// the cursor of the message from the network
    pub tried_to_process: u64,
}

/// What the caller has to do next.
#[derive(Debug)]
pub enum ProcessStep<E> {
    /// read from the database up to which cursor the group was synced
    LastCursor { group_id: Vec<u8> },
    /// let the group process the message
    Entry,
    /// the group failed to process the message: sync the whole group
    Recover { group_id: Vec<u8>, created_ns: i64, error: GroupMessageProcessingError<E> },
    /// read the message from the database
    Load { group_id: Vec<u8>, created_ns: i64, summary: SyncSummary },
    /// nothing: this is the outcome
    Finished(Result<ProcessedMessage, SubscribeError<E>>),
}

/// What came of the step before.
#[derive(Debug)]
pub enum Answer<E> {
    Start,
    LastCursor(Result<i64, SubscribeError<E>>),
    Entry(Result<MessageIdentifier, SubscribeError<E>>),
    Recovery(Result<SyncSummary, SyncSummary>),
    Stored { summary: SyncSummary, stored: Result<Option<StoredGroupMessage>, SubscribeError<E>> },
}

/// What a group made of a message.
#[derive(Debug)]
pub enum StreamEntry<E> {
    Summary(SyncSummary),
    /// the message failed to process, a recovery sync is called for
    Recover(GroupMessageProcessingError<E>),
}

/// The message that a group has processed, now or at an earlier time.
pub open spec fn processed_by_group<E>(
    result: Result<MessageIdentifier, SubscribeError<E>>,
) -> Option<MessageIdentifier> {
    match result {
        Ok(msg) => Some(msg),
        Err(
            SubscribeError::ReceiveGroup(GroupMessageProcessingError::MessageAlreadyProcessed(msg)),
        ) => Some(msg),
        Err(
            SubscribeError::ReceiveGroup(
                GroupMessageProcessingError::ProcessIntent(
                    ProcessIntentError::MessageAlreadyProcessed(msg),
                ),
            ),
        ) => Some(msg),
        Err(_) => None,
    }
}

/// Whether `entry` is what follows from the group's `result`: a processed message is a sync
/// of that message, another failure of the group calls for recovery, and any other error
/// counts as a sync that came across nothing.
pub open spec fn entry_follows<E>(
    result: Result<MessageIdentifier, SubscribeError<E>>,
    entry: StreamEntry<E>,
) -> bool {
    match processed_by_group(result) {
        Some(msg) => entry matches StreamEntry::Summary(summary) && summary.is_single(msg),
        None => match result {
            Err(SubscribeError::ReceiveGroup(error)) => entry == StreamEntry::Recover(error),
            _ => entry matches StreamEntry::Summary(summary) && summary.is_empty(),
        },
    }
}

/// Whether `step` reads `msg` from the database after a sync with outcome `summary`.
pub open spec fn loads<E>(step: ProcessStep<E>, msg: V1, summary: SyncSummary) -> bool {
    step matches ProcessStep::Load { group_id, created_ns, summary: handed_on } && {
        &&& group_id@ == msg.group_id@
        &&& created_ns == as_signed(msg.created_ns)
        &&& handed_on == summary
    }
}

/// Whether `processed` is the outcome for `msg`, given the sync and what the database holds.
pub open spec fn is_outcome(
    processed: ProcessedMessage,
    msg: V1,
    summary: SyncSummary,
    stored: Option<StoredGroupMessage>,
) -> bool {
    &&& processed.message == stored
    &&& processed.group_id@ == msg.group_id@
    &&& processed.tried_to_process == msg.id
    &&& stored is Some ==> processed.next_message == Some(msg.id)
    &&& stored is None ==> (processed.next_message matches Some(next)
        && summary.process.goes_on_at(next))
}

/// Whether `step` is what follows, for the message `msg`, from `answer`.
pub open spec fn step_follows<E>(msg: V1, answer: Answer<E>, step: ProcessStep<E>) -> bool {
    match answer {
        Answer::Start => step matches ProcessStep::LastCursor { group_id } && group_id@
            == msg.group_id@,
        Answer::LastCursor(Err(error)) => step == ProcessStep::<E>::Finished(Err(error)),
        Answer::LastCursor(Ok(last_synced_id)) => if last_synced_id < as_signed(msg.id) {
            step is Entry
        } else {
            exists|identifier: MessageIdentifier, summary: SyncSummary|
                {
                    &&& identifier.names(msg)
                    &&& #[trigger] summary.is_single(identifier)
                    &&& loads(step, msg, summary)
                }
        },
        Answer::Entry(result) => match step {
            ProcessStep::Recover { group_id, created_ns, error } => {
                &&& group_id@ == msg.group_id@
                &&& created_ns == as_signed(msg.created_ns)
                &&& entry_follows(result, StreamEntry::Recover(error))
            },
            ProcessStep::Load { group_id, created_ns, summary } => {
                &&& loads(step, msg, summary)
                &&& entry_follows(result, StreamEntry::Summary(summary))
            },
            _ => false,
        },
        Answer::Recovery(Ok(summary)) => loads(step, msg, summary),
        Answer::Recovery(Err(summary)) => loads(step, msg, summary),
        Answer::Stored { summary, stored: Err(error) } => step == ProcessStep::<E>::Finished(
            Err(error),
        ),
        Answer::Stored { summary, stored: Ok(stored) } => step matches ProcessStep::Finished(
            Ok(processed),
        ) && is_outcome(processed, msg, summary, stored),
    }
}

impl<C> ProcessMessageFuture<C> {
    /// Create a new Future to process a GroupMessage.
    pub fn new<E>(client: C, msg: V1) -> (future: Result<ProcessMessageFuture<C>, SubscribeError<E>>)
        ensures
            future == Ok::<ProcessMessageFuture<C>, SubscribeError<E>>(
                (ProcessMessageFuture { client, msg }),
            ),
    {
        Ok(ProcessMessageFuture { client, msg })
    }

    /// Process a message, returning the message from the database and the cursor of the message.
    /// There will always be a cursor returned. If a cursor is returned but a message is not, it
    /// means that processing was tried up to that cursor, but no message could be got from it.
    ///
    /// Called with [`Answer::Start`], and then with the answer to each step until it is finished.
    pub fn process<E>(&self, answer: Answer<E>) -> (step: ProcessStep<E>)
        ensures
            step_follows(self.msg, answer, step),
    {
        match answer {
            Answer::Start => ProcessStep::LastCursor {
                group_id: copy_bytes(self.msg.group_id.as_slice()),
            },
            Answer::LastCursor(Err(error)) => ProcessStep::Finished(Err(error)),
            Answer::LastCursor(Ok(last_synced_id)) => {
                if self.needs_to_sync(self.msg.id, last_synced_id) {
                    ProcessStep::Entry
                } else {
                    self.load(SyncSummary::single(MessageIdentifier::of(&self.msg)))
                }
            },
            Answer::Entry(result) => match self.process_stream_entry(result) {
                StreamEntry::Summary(summary) => self.load(summary),
                StreamEntry::Recover(error) => ProcessStep::Recover {
                    group_id: copy_bytes(self.msg.group_id.as_slice()),
                    created_ns: to_signed(self.msg.created_ns),
                    error,
                },
            },
            Answer::Recovery(sync) => self.load(self.attempt_message_recovery(sync)),
            Answer::Stored { summary, stored } => match stored {
                Ok(stored) => ProcessStep::Finished(Ok(self.processed(summary, stored))),
                Err(error) => ProcessStep::Finished(Err(error)),
            },
        }
    }

    fn load<E>(&self, summary: SyncSummary) -> (step: ProcessStep<E>)
        ensures
            loads(step, self.msg, summary),
    {
        ProcessStep::Load {
            group_id: copy_bytes(self.msg.group_id.as_slice()),
            created_ns: to_signed(self.msg.created_ns),
            summary,
        }
    }

    /// The outcome, once the database was asked for the message. It may be there though the sync
    /// did not bring it, where it was processed in another thread.
    pub fn processed(
        &self,
        summary: SyncSummary,
        stored: Option<StoredGroupMessage>,
    ) -> (processed: ProcessedMessage)
        ensures
            is_outcome(processed, self.msg, summary, stored),
            processed.next_message is Some,
    {
        let next_message: Option<u64> = if stored.is_some() {
            Some(self.msg.id)
        } else {
            // if there are no new messages, the cursor is set to the latest of all messages that
            // were processed, or, if nothing was processed, back to zero
            Some(summary.process.next())
        };
        ProcessedMessage {
            message: stored,
            group_id: copy_bytes(self.msg.group_id.as_slice()),
            next_message,
            tried_to_process: self.msg.id,
        }
    }

    /// What to make of the group's result on the message.
    pub fn process_stream_entry<E>(
        &self,
        process_result: Result<MessageIdentifier, SubscribeError<E>>,
    ) -> (entry: StreamEntry<E>)
        ensures
            entry_follows(process_result, entry),
    {
        match process_result {
            Err(
                SubscribeError::ReceiveGroup(
                    GroupMessageProcessingError::MessageAlreadyProcessed(msg),
                ),
            ) => StreamEntry::Summary(SyncSummary::single(msg)),
            Err(
                SubscribeError::ReceiveGroup(
                    GroupMessageProcessingError::ProcessIntent(
                        ProcessIntentError::MessageAlreadyProcessed(msg),
                    ),
                ),
            ) => StreamEntry::Summary(SyncSummary::single(msg)),
            Err(SubscribeError::ReceiveGroup(error)) => StreamEntry::Recover(error),
            Err(_) => StreamEntry::Summary(SyncSummary::default()),
            Ok(msg) => StreamEntry::Summary(SyncSummary::single(msg)),
        }
    }

    /// Checks if a message has already been processed through a sync: one at
    /// `current_msg_cursor` has not where the group was synced to an earlier cursor only.
    /// The database numbers cursors in signed integers.
    pub fn needs_to_sync(&self, current_msg_cursor: u64, last_synced_id: i64) -> (needed: bool)
        ensures
            needed == (last_synced_id < as_signed(current_msg_cursor)),
    {
        last_synced_id < to_signed(current_msg_cursor)
    }

    /// The outcome of a recovery sync. Its errors are swallowed, since another process may have
    /// successfully saved the message to the database.
    pub fn attempt_message_recovery(&self, sync: Result<SyncSummary, SyncSummary>) -> (summary:
        SyncSummary)
        ensures
            sync == Ok::<SyncSummary, SyncSummary>(summary) || sync == Err::<
                SyncSummary,
                SyncSummary,
            >(summary),
    {
        match sync {
            Ok(summary) => summary,
            Err(summary) => summary,
        }
    }
}

} // verus!
