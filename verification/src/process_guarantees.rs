//! What processing a message does, told by its inputs and results alone.

use crate::error::{GroupMessageProcessingError, ProcessIntentError, SubscribeError};
use crate::group_message::{StoredGroupMessage, V1};
use crate::laws::{answers, is_processing};
use crate::process::{
    entry_follows, is_outcome, step_follows, Answer, ProcessStep, ProcessedMessage, StreamEntry,
};
use crate::summary::{is_lowest, MessageIdentifier, ProcessSummary, SyncSummary};
use vstd::prelude::*;

verus! {

/// Whether `signed` has the bits of `n`.
pub open spec fn same_bits(n: u64, signed: i64) -> bool {
    if n < 0x8000_0000_0000_0000 {
        signed == n
    } else {
        signed == n - 0x1_0000_0000_0000_0000
    }
}

/// Whether `step` reads `msg` from the database, by its group and its time, and hands `summary` on
/// as it is.
pub open spec fn reads<E>(step: ProcessStep<E>, msg: V1, summary: SyncSummary) -> bool {
    step matches ProcessStep::Load { group_id, created_ns, summary: handed_on } && {
        &&& group_id@ == msg.group_id@
        &&& same_bits(msg.created_ns, created_ns)
        &&& handed_on == summary
    }
}

/// Whether the sync came across the message at `cursor` alone, as a new one.
pub open spec fn came_across_one(summary: SyncSummary, msg: MessageIdentifier) -> bool {
    &&& summary.process.new_messages@.len() == 1
    &&& summary.process.new_messages@[0] == msg
    &&& summary.process.last == Some(msg.cursor)
}

/// Whether `next` is the lowest cursor of the new messages, or with none new the last cursor, or with
/// none at all zero.
pub open spec fn is_next(summary: SyncSummary, next: Option<u64>) -> bool {
    let new = summary.process.new_messages@;
    &&& next is Some
    &&& forall|i: int| 0 <= i < new.len() ==> next->0 <= (#[trigger] new[i]).cursor
    &&& new.len() > 0 ==> exists|i: int| 0 <= i < new.len() && (#[trigger] new[i]).cursor == next->0
    &&& new.len() == 0 && summary.process.last is Some ==> next == summary.process.last
    &&& new.len() == 0 && summary.process.last is None ==> next == Some(0u64)
}

/// Processing begins by reading how far the group of the message was synced.
pub proof fn begins_with_last_cursor<E>(msg: V1, step: ProcessStep<E>)
    requires
        step_follows(msg, Answer::Start, step),
    ensures
        step matches ProcessStep::LastCursor { group_id } && group_id@ == msg.group_id@,
{
}

/// A message is left to its group to process if and only if the group was synced to a lower cursor
/// only, zero and negative ones included; the cursor of the message counts by its bits, as the
/// database numbers cursors.
pub proof fn unsynced_message_goes_to_its_group<E>(msg: V1, last: i64, step: ProcessStep<E>)
    requires
        step_follows(msg, Answer::LastCursor(Ok(last)), step),
    ensures
        msg.id < 0x8000_0000_0000_0000 ==> (step is Entry <==> last < msg.id),
        msg.id >= 0x8000_0000_0000_0000 ==> (step is Entry <==> last < msg.id
            - 0x1_0000_0000_0000_0000),
        step is Entry || step is Load,
{
}

/// A message that was synced is read from the database right away, as though the sync of it alone
/// had just been done.
pub proof fn synced_message_is_read<E>(msg: V1, last: i64, step: ProcessStep<E>)
    requires
        step_follows(msg, Answer::LastCursor(Ok(last)), step),
        step !is Entry,
    ensures
        exists|summary: SyncSummary, identifier: MessageIdentifier|
            {
                &&& reads(step, msg, summary)
                &&& #[trigger] came_across_one(summary, identifier)
                &&& identifier.cursor == msg.id
                &&& identifier.group_id@ == msg.group_id@
                &&& identifier.created_ns == msg.created_ns
            },
{
    let (identifier, summary) = choose|identifier: MessageIdentifier, summary: SyncSummary|
        {
            &&& identifier.names(msg)
            &&& #[trigger] summary.is_single(identifier)
            &&& crate::process::loads(step, msg, summary)
        };
    assert(summary.process.new_messages@ == seq![identifier]);
    assert(came_across_one(summary, identifier));
}

/// An error of the database ends the processing with that error.
pub proof fn database_error_ends_processing<E>(
    msg: V1,
    error: SubscribeError<E>,
    summary: SyncSummary,
    first: ProcessStep<E>,
    second: ProcessStep<E>,
)
    requires
        step_follows(msg, Answer::LastCursor(Err(error)), first),
        step_follows(msg, Answer::Stored { summary, stored: Err(error) }, second),
    ensures
        first == ProcessStep::<E>::Finished(Err(error)),
        second == ProcessStep::<E>::Finished(Err(error)),
{
}

/// A message that its group has processed, now or before, in answer to an intent or not, counts as a
/// sync of what the group named, and is then read from the database.
pub proof fn processed_message_is_read<E>(
    msg: V1,
    result: Result<MessageIdentifier, SubscribeError<E>>,
    identifier: MessageIdentifier,
    step: ProcessStep<E>,
)
    requires
        step_follows(msg, Answer::Entry(result), step),
        result == Ok::<MessageIdentifier, SubscribeError<E>>(identifier) || result == Err::<
            MessageIdentifier,
            SubscribeError<E>,
        >(
            SubscribeError::ReceiveGroup(
                GroupMessageProcessingError::MessageAlreadyProcessed(identifier),
            ),
        ) || result == Err::<MessageIdentifier, SubscribeError<E>>(
            SubscribeError::ReceiveGroup(
                GroupMessageProcessingError::ProcessIntent(
                    ProcessIntentError::MessageAlreadyProcessed(identifier),
                ),
            ),
        ),
    ensures
        step is Load,
        reads(step, msg, step->Load_summary),
        came_across_one(step->Load_summary, identifier),
{
}

/// Any other failure of the group leads to a sync of the whole group, by its id and the time of the
/// message.
pub proof fn failed_group_is_recovered<E>(
    msg: V1,
    error: GroupMessageProcessingError<E>,
    step: ProcessStep<E>,
)
    requires
        step_follows(msg, Answer::Entry(Err(SubscribeError::ReceiveGroup(error))), step),
        error !is MessageAlreadyProcessed,
        error matches GroupMessageProcessingError::ProcessIntent(intent)
            ==> intent !is MessageAlreadyProcessed,
    ensures
        step matches ProcessStep::Recover { group_id, created_ns, error: handed_on } && {
            &&& group_id@ == msg.group_id@
            &&& same_bits(msg.created_ns, created_ns)
            &&& handed_on == error
        },
{
}

/// An error that does not come from the group counts as a sync that came across nothing, and the
/// message is still read from the database.
pub proof fn other_error_is_an_empty_sync<E>(
    msg: V1,
    error: SubscribeError<E>,
    step: ProcessStep<E>,
)
    requires
        step_follows(msg, Answer::Entry(Err(error)), step),
        error !is ReceiveGroup,
    ensures
        step is Load,
        reads(step, msg, step->Load_summary),
        step->Load_summary.process.new_messages@.len() == 0,
        step->Load_summary.process.last is None,
{
}

/// What a group made of a message, as it stands by itself.
pub proof fn entry_tells_the_result<E>(
    result: Result<MessageIdentifier, SubscribeError<E>>,
    entry: StreamEntry<E>,
)
    requires
        entry_follows(result, entry),
    ensures
        result matches Ok(identifier) ==> (entry matches StreamEntry::Summary(summary)
            && came_across_one(summary, identifier)),
        result matches Err(
            SubscribeError::ReceiveGroup(
                GroupMessageProcessingError::MessageAlreadyProcessed(identifier),
            ),
        ) ==> (entry matches StreamEntry::Summary(summary) && came_across_one(summary, identifier)),
        result matches Err(
            SubscribeError::ReceiveGroup(
                GroupMessageProcessingError::ProcessIntent(
                    ProcessIntentError::MessageAlreadyProcessed(identifier),
                ),
            ),
        ) ==> (entry matches StreamEntry::Summary(summary) && came_across_one(summary, identifier)),
        result matches Err(
            SubscribeError::ReceiveGroup(GroupMessageProcessingError::Other(error)),
        ) ==> entry == StreamEntry::Recover(GroupMessageProcessingError::Other(error)),
        result matches Err(
            SubscribeError::ReceiveGroup(
                GroupMessageProcessingError::ProcessIntent(ProcessIntentError::Other(error)),
            ),
        ) ==> entry == StreamEntry::Recover(
            GroupMessageProcessingError::ProcessIntent(ProcessIntentError::Other(error)),
        ),
        result matches Err(error) && error !is ReceiveGroup ==> (
        entry matches StreamEntry::Summary(summary) && summary.process.new_messages@.len() == 0
            && summary.process.last is None),
{
}

/// The outcome of a recovery sync is handed on as it is, whether the sync succeeded or failed: with
/// all of its new messages, in their order, and with its last cursor.
pub proof fn recovery_is_handed_on_whole<E>(
    msg: V1,
    sync: Result<SyncSummary, SyncSummary>,
    step: ProcessStep<E>,
)
    requires
        step_follows(msg, Answer::Recovery(sync), step),
    ensures
        sync matches Ok(summary) ==> reads(step, msg, summary),
        sync matches Err(summary) ==> reads(step, msg, summary),
{
}

/// A message that the database holds is handed on, and the stream goes on at the cursor of the
/// message from the network, whatever the sync came across.
pub proof fn stored_message_is_handed_on<E>(
    msg: V1,
    summary: SyncSummary,
    stored: StoredGroupMessage,
    step: ProcessStep<E>,
)
    requires
        step_follows(msg, Answer::Stored { summary, stored: Ok(Some(stored)) }, step),
    ensures
        step matches ProcessStep::Finished(Ok(processed)) && {
            &&& processed.message == Some(stored)
            &&& processed.group_id@ == msg.group_id@
            &&& processed.next_message == Some(msg.id)
            &&& processed.tried_to_process == msg.id
        },
{
}

/// Without the message, the stream goes on at the lowest of the new messages, or at the last cursor
/// that was processed, or at zero.
pub proof fn missing_message_leads_to_next<E>(
    msg: V1,
    summary: SyncSummary,
    step: ProcessStep<E>,
)
    requires
        step_follows(msg, Answer::Stored { summary, stored: Ok(None) }, step),
    ensures
        step matches ProcessStep::Finished(Ok(processed)) && {
            &&& processed.message is None
            &&& processed.group_id@ == msg.group_id@
            &&& is_next(summary, processed.next_message)
            &&& processed.tried_to_process == msg.id
        },
{
    if let ProcessStep::Finished(Ok(processed)) = step {
        outcome_tells_what_is_stored(processed, msg, summary, None);
    }
}

/// The outcome names the message from the network and what the database holds of it, and says where
/// to go on.
pub proof fn outcome_tells_what_is_stored(
    processed: ProcessedMessage,
    msg: V1,
    summary: SyncSummary,
    stored: Option<StoredGroupMessage>,
)
    requires
        is_outcome(processed, msg, summary, stored),
    ensures
        processed.message == stored,
        processed.group_id@ == msg.group_id@,
        processed.tried_to_process == msg.id,
        stored is Some ==> processed.next_message == Some(msg.id),
        stored is None ==> is_next(summary, processed.next_message),
{
    if stored is None {
        next_is_told(summary.process, processed.next_message->0);
    }
}

/// Where a stream goes on after a sync that did not bring its message: at the lowest of the new
/// messages, or at the last cursor that was processed, or at zero.
pub proof fn next_is_told(process: ProcessSummary, next: u64)
    requires
        process.goes_on_at(next),
    ensures
        is_next((SyncSummary { process }), Some(next)),
{
    let new = process.new_messages@;
    if new.len() > 0 {
        lowest_is_told(next, new);
    }
}

/// A lowest cursor is that of one of the messages, and that of no message is lower.
pub proof fn lowest_is_told(cursor: u64, messages: Seq<MessageIdentifier>)
    requires
        is_lowest(cursor, messages),
    ensures
        exists|i: int| 0 <= i < messages.len() && (#[trigger] messages[i]).cursor == cursor,
        forall|i: int| 0 <= i < messages.len() ==> cursor <= (#[trigger] messages[i]).cursor,
{
    let i = choose|i: int| 0 <= i < messages.len() && #[trigger] messages[i].cursor == cursor;
    assert(messages[i].cursor == cursor);
}

/// A sync of one message came across that one alone, and the empty one came across nothing.
pub proof fn summaries_are_told(
    single: SyncSummary,
    identifier: MessageIdentifier,
    msg: V1,
    empty: SyncSummary,
)
    requires
        single.is_single(identifier),
        identifier.names(msg),
        empty.is_empty(),
    ensures
        came_across_one(single, identifier),
        identifier.cursor == msg.id,
        identifier.group_id@ == msg.group_id@,
        identifier.created_ns == msg.created_ns,
        empty.process.new_messages@.len() == 0,
        empty.process.last is None,
{
}

/// Processing after a recovery sync ends with what the database holds. Where that is nothing, the
/// stream goes on at the lowest new message of that sync, so that none of them is passed.
pub proof fn recovery_passes_no_new_message<E>(
    msg: V1,
    steps: Seq<ProcessStep<E>>,
    reports: Seq<Answer<E>>,
    k: int,
    sync: Result<SyncSummary, SyncSummary>,
    processed: ProcessedMessage,
)
    requires
        is_processing(msg, steps, reports),
        0 <= k < reports.len(),
        reports[k] == Answer::<E>::Recovery(sync),
        steps.last() == ProcessStep::<E>::Finished(Ok(processed)),
        processed.message is None,
    ensures
        reports.len() == k + 2,
        ({
            let summary = match sync {
                Ok(summary) => summary,
                Err(summary) => summary,
            };
            is_next(summary, processed.next_message)
        }),
{
    let summary = match sync {
        Ok(summary) => summary,
        Err(summary) => summary,
    };
    load_is_the_last_step(msg, steps, reports, k, summary);
    let last = reports[k + 1];
    if let Answer::Stored { summary: handed_back, stored } = last {
        if let Ok(stored) = stored {
            outcome_tells_what_is_stored(processed, msg, summary, stored);
        }
    }
}

/// After a step that reads the database, the next one is the last.
proof fn load_is_the_last_step<E>(
    msg: V1,
    steps: Seq<ProcessStep<E>>,
    reports: Seq<Answer<E>>,
    k: int,
    summary: SyncSummary,
)
    requires
        is_processing(msg, steps, reports),
        0 <= k < reports.len(),
        step_follows(msg, reports[k], steps[k + 1]) ==> reads(steps[k + 1], msg, summary),
        steps.last() is Finished,
    ensures
        reports.len() == k + 2,
        answers(steps[k + 1], reports[k + 1]),
        step_follows(msg, reports[k + 1], steps[k + 2]),
        reads(steps[k + 1], msg, summary),
        steps.last() == steps[k + 2],
{
    assert(answers(steps[k], reports[k]));
    assert(steps[k + 1] !is Finished);
    assert(k + 1 < reports.len());
    assert(answers(steps[k + 1], reports[k + 1]));
    assert(steps[k + 2] is Finished);
    if k + 2 < reports.len() {
        assert(answers(steps[k + 2], reports[k + 2]));
    }
}

/// The step after the last cursor was read is to let the group process the message if the group was
/// not synced up to it, and to read the message if it was.
pub proof fn group_processes_unsynced_messages<E>(
    msg: V1,
    steps: Seq<ProcessStep<E>>,
    reports: Seq<Answer<E>>,
    last: i64,
)
    requires
        is_processing(msg, steps, reports),
        msg.id < 0x8000_0000_0000_0000,
        reports.len() > 0,
        reports[0] == Answer::<E>::LastCursor(Ok(last)),
    ensures
        steps[0] is LastCursor,
        last < msg.id ==> steps[1] is Entry,
        last >= msg.id ==> steps[1] is Load,
{
    assert(answers(steps[0], reports[0]));
    assert(step_follows(msg, reports[0], steps[1]));
    unsynced_message_goes_to_its_group(msg, last, steps[1]);
}

} // verus!
