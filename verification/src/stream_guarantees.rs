//! What the operations of a stream do, told by their inputs and results alone.

use crate::error::{MessageStreamError, SubscribeError};
use crate::group_list::{lists_filters, GroupFilter};
use crate::group_message::{GroupMessage, StoredGroupMessage, Version, V1};
use crate::process::ProcessedMessage;
use crate::stream::{
    adds, at_latest, fits, latest_cursor, opens, refiltered, subscribes, transition, Action, AddPoll,
    Event, InnerPoll, ProcessPoll, State, StreamModel, SubscribeRequest, Subscription,
};
use vstd::prelude::*;

verus! {

/// Whether `filters` are one for each group of `positions`, from the cursor of the group on, or
/// from zero on where it has none, and no others.
pub open spec fn one_filter_each(
    filters: Seq<GroupFilter>,
    positions: Map<Seq<u8>, Option<u64>>,
) -> bool {
    &&& forall|i: int|
        0 <= i < filters.len() ==> {
            &&& positions.dom().contains((#[trigger] filters[i]).group_id@)
            &&& positions[filters[i].group_id@] matches Some(cursor) ==> filters[i].id_cursor
                == Some(cursor)
            &&& positions[filters[i].group_id@] is None ==> filters[i].id_cursor == Some(0u64)
        }
    &&& forall|i: int, j: int|
        0 <= i < filters.len() && 0 <= j < filters.len() && (#[trigger] filters[i]).group_id@ == (
        #[trigger] filters[j]).group_id@ ==> i == j
    &&& forall|group: Seq<u8>|
        #[trigger] positions.dom().contains(group) ==> exists|i: int|
            0 <= i < filters.len() && (#[trigger] filters[i]).group_id@ == group
}

/// The positions after `group` was told of `cursor`: a group that is not among them stays away.
pub open spec fn told(
    positions: Map<Seq<u8>, Option<u64>>,
    group: Seq<u8>,
    cursor: Option<u64>,
) -> Map<Seq<u8>, Option<u64>> {
    if cursor is Some && positions.dom().contains(group) {
        positions.insert(group, cursor)
    } else {
        positions
    }
}

/// The filters of a stream are one for each group that it follows, from the cursor of the group on.
pub proof fn filters_are_one_for_each_group(
    filters: Seq<GroupFilter>,
    positions: Map<Seq<u8>, Option<u64>>,
)
    requires
        lists_filters(filters, positions),
    ensures
        one_filter_each(filters, positions),
{
    assert forall|i: int| 0 <= i < filters.len() implies {
        &&& positions.dom().contains((#[trigger] filters[i]).group_id@)
        &&& positions[filters[i].group_id@] matches Some(cursor) ==> filters[i].id_cursor == Some(
            cursor,
        )
        &&& positions[filters[i].group_id@] is None ==> filters[i].id_cursor == Some(0u64)
    } by {
        assert(positions.contains_key(filters[i].group_id@));
    }
    assert forall|i: int, j: int|
        0 <= i < filters.len() && 0 <= j < filters.len() && (#[trigger] filters[i]).group_id@ == (
        #[trigger] filters[j]).group_id@ implies i == j by {
        if i < j {
            assert(filters[i].group_id@ != filters[j].group_id@);
        } else if j < i {
            assert(filters[j].group_id@ != filters[i].group_id@);
        }
    }
    assert forall|group: Seq<u8>| #[trigger] positions.dom().contains(group) implies exists|i: int|
        0 <= i < filters.len() && (#[trigger] filters[i]).group_id@ == group by {
        assert(positions.contains_key(group));
        let i = choose|i: int| 0 <= i < filters.len() && #[trigger] filters[i].group_id@ == group;
        assert(filters[i].group_id@ == group);
    }
}

/// Whether `answer` is a readable message of `group`.
pub open spec fn is_of<E>(answer: Result<Option<GroupMessage>, E>, group: Seq<u8>) -> bool {
    answer matches Ok(Some(message)) && message.version matches Some(Version::V1(value))
        && value.group_id@ == group
}

/// In a stream that was opened, a group stands at the cursor of the last answer that is a message of
/// it, whatever the other answers are.
pub proof fn opens_at_last_message<E>(
    groups: Seq<Vec<u8>>,
    latest: Seq<Result<Option<GroupMessage>, E>>,
    model: StreamModel,
    k: int,
    i: int,
    value: V1,
)
    requires
        opens(groups, latest, Ok(model)),
        0 <= k < groups.len(),
        0 <= i < latest.len(),
        latest[i] == Ok::<Option<GroupMessage>, E>(
            Some((GroupMessage { version: Some(Version::V1(value)) })),
        ),
        value.group_id@ == groups[k]@,
        forall|j: int| i < j < latest.len() ==> !is_of(#[trigger] latest[j], groups[k]@),
    ensures
        model.positions.dom().contains(groups[k]@),
        model.positions[groups[k]@] == Some(value.id),
{
    latest_is_last(latest, groups[k]@, i, value);
    assert(at_latest(groups, latest).dom().contains(groups[k]@));
}

proof fn latest_is_last<E>(
    latest: Seq<Result<Option<GroupMessage>, E>>,
    group: Seq<u8>,
    i: int,
    value: V1,
)
    requires
        0 <= i < latest.len(),
        latest[i] == Ok::<Option<GroupMessage>, E>(
            Some((GroupMessage { version: Some(Version::V1(value)) })),
        ),
        value.group_id@ == group,
        forall|j: int| i < j < latest.len() ==> !is_of(#[trigger] latest[j], group),
    ensures
        latest_cursor(latest, group) == value.id,
    decreases latest.len(),
{
    if i < latest.len() - 1 {
        let fewer = latest.drop_last();
        assert(!is_of(latest[latest.len() - 1], group));
        assert forall|j: int| i < j < fewer.len() implies !is_of(#[trigger] fewer[j], group) by {
            assert(fewer[j] == latest[j]);
        }
        latest_is_last(fewer, group, i, value);
    }
}

/// In a stream that was opened, a group of which no answer is a message stands at zero.
pub proof fn opens_at_zero_without_message<E>(
    groups: Seq<Vec<u8>>,
    latest: Seq<Result<Option<GroupMessage>, E>>,
    model: StreamModel,
    k: int,
)
    requires
        opens(groups, latest, Ok(model)),
        0 <= k < groups.len(),
        forall|j: int| 0 <= j < latest.len() ==> !is_of(#[trigger] latest[j], groups[k]@),
    ensures
        model.positions.dom().contains(groups[k]@),
        model.positions[groups[k]@] == Some(0u64),
{
    latest_is_zero(latest, groups[k]@);
    assert(at_latest(groups, latest).dom().contains(groups[k]@));
}

proof fn latest_is_zero<E>(latest: Seq<Result<Option<GroupMessage>, E>>, group: Seq<u8>)
    requires
        forall|j: int| 0 <= j < latest.len() ==> !is_of(#[trigger] latest[j], group),
    ensures
        latest_cursor(latest, group) == 0,
    decreases latest.len(),
{
    if latest.len() > 0 {
        let fewer = latest.drop_last();
        assert(!is_of(latest[latest.len() - 1], group));
        assert forall|j: int| 0 <= j < fewer.len() implies !is_of(#[trigger] fewer[j], group) by {
            assert(fewer[j] == latest[j]);
        }
        latest_is_zero(fewer, group);
    }
}

/// A stream that was opened is waiting, follows the groups that it was given and no others, and has
/// got nothing, returned nothing and queued nothing.
pub proof fn opens_afresh<E>(
    groups: Seq<Vec<u8>>,
    latest: Seq<Result<Option<GroupMessage>, E>>,
    model: StreamModel,
    group: Seq<u8>,
)
    requires
        opens(groups, latest, Ok(model)),
    ensures
        model.state == State::Waiting,
        model.positions.dom().contains(group) <==> exists|k: int|
            0 <= k < groups.len() && (#[trigger] groups[k])@ == group,
        model.queue.len() == 0,
        model.returned.len() == 0,
        model.got.len() == 0,
{
    assert(at_latest(groups, latest).dom().contains(group) <==> exists|k: int|
        0 <= k < groups.len() && (#[trigger] groups[k])@ == group);
}

/// A stream is opened if and only if every answer is there and every message can be read. If not,
/// the first failed answer is the error, and an unreadable message is one only with no failed
/// answer.
pub proof fn opens_unless_refused<E>(
    groups: Seq<Vec<u8>>,
    latest: Seq<Result<Option<GroupMessage>, E>>,
    outcome: Result<StreamModel, SubscribeError<E>>,
)
    requires
        opens(groups, latest, outcome),
    ensures
        outcome is Ok <==> forall|i: int|
            0 <= i < latest.len() ==> {
                &&& #[trigger] latest[i] is Ok
                &&& latest[i] matches Ok(Some(message)) ==> message.version is Some
            },
        forall|i: int|
            0 <= i < latest.len() && #[trigger] latest[i] is Err && (forall|j: int|
                0 <= j < i ==> #[trigger] latest[j] is Ok) ==> outcome == Err::<
                StreamModel,
                SubscribeError<E>,
            >(SubscribeError::Client(latest[i]->Err_0)),
        outcome is Err && (forall|i: int| 0 <= i < latest.len() ==> #[trigger] latest[i] is Ok)
            ==> outcome == Err::<StreamModel, SubscribeError<E>>(
            SubscribeError::MessageStream(MessageStreamError::InvalidPayload),
        ),
{
    assert forall|i: int|
        0 <= i < latest.len() && #[trigger] latest[i] is Err && (forall|j: int|
            0 <= j < i ==> #[trigger] latest[j] is Ok) implies outcome == Err::<
        StreamModel,
        SubscribeError<E>,
    >(SubscribeError::Client(latest[i]->Err_0)) by {
        assert(latest[i] is Err);
        if let Err(SubscribeError::Client(first)) = outcome {
            let k = choose|k: int|
                {
                    &&& 0 <= k < latest.len()
                    &&& #[trigger] latest[k] == Err::<Option<GroupMessage>, E>(first)
                    &&& forall|j: int| 0 <= j < k ==> #[trigger] latest[j] is Ok
                };
            assert(latest[k] is Err);
        }
    }
}

/// A poll of a stream that is busy changes nothing, and polls what it is busy with.
pub proof fn busy_stream_is_left_alone<E>(pre: StreamModel, post: StreamModel, action: Action<E>)
    requires
        transition(pre, Event::Polled, post, action),
        pre.state == State::Processing || pre.state == State::Adding,
    ensures
        post == pre,
        pre.state == State::Processing ==> action == Action::<E>::PollProcessing,
        pre.state == State::Adding ==> action == Action::<E>::PollAdding,
{
}

/// A poll of a waiting stream takes in the first group that waits, at cursor one, with a request
/// that asks for every group that the stream follows from then on; with none waiting it asks for
/// the next message, and changes nothing.
pub proof fn waiting_stream_serves_its_queue<E>(
    pre: StreamModel,
    post: StreamModel,
    action: Action<E>,
)
    requires
        transition(pre, Event::Polled, post, action),
        pre.state == State::Waiting,
    ensures
        pre.queue.len() == 0 ==> post == pre && action == Action::<E>::PollInner,
        pre.queue.len() > 0 ==> {
            &&& post.state == State::Adding
            &&& post.positions == pre.positions.insert(pre.queue[0], Some(1u64))
            &&& post.queue == pre.queue.skip(1)
            &&& post.returned == pre.returned
            &&& post.got == pre.got
            &&& action matches Action::Subscribe(request) && request.group_id@ == pre.queue[0]
                && one_filter_each(request.filters@, post.positions)
        },
{
    if pre.queue.len() > 0 {
        if let Action::Subscribe(request) = action {
            filters_are_one_for_each_group(request.filters@, post.positions);
        }
    }
}

/// A message from the network is processed if the stream does not follow its group, or has no cursor
/// for it, or has one that is not above that of the message; else it is skipped. It makes no
/// difference whether the stream was skipping. Either way the message counts as received, and no
/// position moves.
pub proof fn message_is_processed_or_skipped<E>(
    pre: StreamModel,
    value: V1,
    envelope: V1,
    skipping: bool,
    post: StreamModel,
    action: Action<E>,
)
    requires
        pre.state == State::Waiting,
        ({
            let polled = InnerPoll::<E>::Message(
                (GroupMessage { version: Some(Version::V1(value)) }),
            );
            transition(
                pre,
                if skipping {
                    Event::Skipped { envelope, polled }
                } else {
                    Event::Inner(polled)
                },
                post,
                action,
            )
        }),
    ensures
        post.got == pre.got.push(value.id),
        post.positions == pre.positions,
        post.queue == pre.queue,
        post.returned == pre.returned,
        ({
            let above = pre.positions.dom().contains(value.group_id@)
                && pre.positions[value.group_id@] is Some
                && pre.positions[value.group_id@]->0 > value.id;
            if above {
                &&& post.state == State::Waiting
                &&& action == Action::<E>::Skip(
                    if skipping {
                        envelope
                    } else {
                        value
                    },
                )
            } else {
                &&& post.state == State::Processing
                &&& action == Action::<E>::Process(value)
            }
        }),
{
}

/// A poll of the subscription that brings no readable message leaves the stream as it was. It is
/// pending, or over, or failed, as the subscription is; a message that cannot be read is followed by
/// another poll.
pub proof fn no_message_changes_nothing<E>(
    pre: StreamModel,
    polled: InnerPoll<E>,
    envelope: V1,
    skipping: bool,
    post: StreamModel,
    action: Action<E>,
)
    requires
        pre.state == State::Waiting,
        polled matches InnerPoll::Message(message) ==> message.version is None,
        transition(
            pre,
            if skipping {
                Event::Skipped { envelope, polled }
            } else {
                Event::Inner(polled)
            },
            post,
            action,
        ),
    ensures
        post == pre,
        polled is Pending ==> action == Action::<E>::Pending,
        polled is Ended ==> action == Action::<E>::Ready(None),
        polled matches InnerPoll::Failed(error) ==> action == Action::Ready(
            Some(Err(SubscribeError::BoxError(error))),
        ),
        polled is Message ==> action == (if skipping {
            Action::<E>::Skip(envelope)
        } else {
            Action::<E>::PollInner
        }),
{
}

/// Whenever processing gives a cursor for a group that the stream follows, with a message or without
/// one, the group stands at that cursor afterwards, in whatever state the stream is left, unless it
/// is the group that is taken in next. A request that follows asks for the group from that cursor
/// on.
pub proof fn group_stands_at_given_cursor<E>(
    pre: StreamModel,
    processed: ProcessedMessage,
    cursor: u64,
    group: Seq<u8>,
    post: StreamModel,
    action: Action<E>,
)
    requires
        pre.state == State::Processing,
        transition(pre, Event::Processing(ProcessPoll::Processed(processed)), post, action),
        processed.next_message == Some(cursor),
        group == (match processed.message {
            Some(message) => message.group_id@,
            None => processed.group_id@,
        }),
        pre.positions.dom().contains(group),
        action matches Action::Subscribe(request) ==> request.group_id@ != group,
    ensures
        post.positions.dom().contains(group),
        post.positions[group] == Some(cursor),
        action matches Action::Subscribe(request) ==> exists|i: int|
            {
                &&& 0 <= i < request.filters@.len()
                &&& (#[trigger] request.filters@[i]).group_id@ == group
                &&& request.filters@[i].id_cursor == Some(cursor)
            },
{
    if let Action::Subscribe(request) = action {
        filters_are_one_for_each_group(request.filters@, post.positions);
        assert(post.positions.dom().contains(group));
    }
}

/// A message that was processed is handed out, whatever waits in the queue. The stream is waiting
/// then, keeps the sequence id of the message by its bits, or zero where there is none, and has moved
/// the group of the message alone.
pub proof fn processed_message_is_handed_out<E>(
    pre: StreamModel,
    processed: ProcessedMessage,
    message: StoredGroupMessage,
    post: StreamModel,
    action: Action<E>,
)
    requires
        pre.state == State::Processing,
        processed.message == Some(message),
        transition(pre, Event::Processing(ProcessPoll::Processed(processed)), post, action),
    ensures
        action == Action::<E>::Ready(Some(Ok(message))),
        post.state == State::Waiting,
        post.positions == told(pre.positions, message.group_id@, processed.next_message),
        post.queue == pre.queue,
        post.got == pre.got,
        post.returned.len() == pre.returned.len() + 1,
        post.returned.drop_last() == pre.returned,
        message.sequence_id is None ==> post.returned.last() == 0,
        message.sequence_id matches Some(id) ==> (if id < 0 {
            post.returned.last() == id + 0x1_0000_0000_0000_0000
        } else {
            post.returned.last() == id
        }),
{
    assert(post.returned.drop_last() =~= pre.returned);
}

/// Where processing gave no message, the group moves to the cursor that it gave, and then the stream
/// goes on as a waiting one: it takes in the first group that waits, or asks for the next message.
pub proof fn missing_message_goes_on<E>(
    pre: StreamModel,
    processed: ProcessedMessage,
    post: StreamModel,
    action: Action<E>,
)
    requires
        pre.state == State::Processing,
        processed.message is None,
        transition(pre, Event::Processing(ProcessPoll::Processed(processed)), post, action),
    ensures
        post.returned == pre.returned,
        post.got == pre.got,
        ({
            let positions = told(pre.positions, processed.group_id@, processed.next_message);
            if pre.queue.len() == 0 {
                &&& post.state == State::Waiting
                &&& post.positions == positions
                &&& post.queue.len() == 0
                &&& action == Action::<E>::PollInner
            } else {
                &&& post.state == State::Adding
                &&& post.positions == positions.insert(pre.queue[0], Some(1u64))
                &&& post.queue == pre.queue.skip(1)
                &&& action matches Action::Subscribe(request) && request.group_id@ == pre.queue[0]
                    && one_filter_each(request.filters@, post.positions)
            }
        }),
{
    assert(post.positions =~= (if pre.queue.len() == 0 {
        told(pre.positions, processed.group_id@, processed.next_message)
    } else {
        told(pre.positions, processed.group_id@, processed.next_message).insert(
            pre.queue[0],
            Some(1u64),
        )
    }));
    if let Action::Subscribe(request) = action {
        filters_are_one_for_each_group(request.filters@, post.positions);
    }
}

/// Processing that is pending or has failed leaves the stream as it was, and so does any report on
/// processing to a stream that processes nothing.
pub proof fn unfinished_processing_changes_nothing<E>(
    pre: StreamModel,
    polled: ProcessPoll<E>,
    post: StreamModel,
    action: Action<E>,
)
    requires
        transition(pre, Event::Processing(polled), post, action),
        pre.state != State::Processing || polled !is Processed,
    ensures
        post == pre,
        pre.state != State::Processing || polled is Pending ==> action == Action::<E>::Pending,
        pre.state == State::Processing ==> (polled matches ProcessPoll::Failed(error) ==> action
            == Action::Ready(Some(Err(error)))),
{
}

/// Once a new subscription stands, its group moves to the cursor that came with it, and the stream
/// goes on as a waiting one.
pub proof fn added_group_goes_on<E>(
    pre: StreamModel,
    group_id: Vec<u8>,
    cursor: Option<u64>,
    post: StreamModel,
    action: Action<E>,
)
    requires
        pre.state == State::Adding,
        transition(pre, Event::Adding(AddPoll::Added { group_id, cursor }), post, action),
    ensures
        post.returned == pre.returned,
        post.got == pre.got,
        ({
            let positions = told(pre.positions, group_id@, cursor);
            if pre.queue.len() == 0 {
                &&& post.state == State::Waiting
                &&& post.positions == positions
                &&& post.queue.len() == 0
                &&& action == Action::<E>::PollInner
            } else {
                &&& post.state == State::Adding
                &&& post.positions == positions.insert(pre.queue[0], Some(1u64))
                &&& post.queue == pre.queue.skip(1)
                &&& action matches Action::Subscribe(request) && request.group_id@ == pre.queue[0]
                    && one_filter_each(request.filters@, post.positions)
            }
        }),
{
    assert(post.positions =~= (if pre.queue.len() == 0 {
        told(pre.positions, group_id@, cursor)
    } else {
        told(pre.positions, group_id@, cursor).insert(pre.queue[0], Some(1u64))
    }));
    if let Action::Subscribe(request) = action {
        filters_are_one_for_each_group(request.filters@, post.positions);
    }
}

/// A renewal that is pending or has failed leaves the stream as it was.
pub proof fn unfinished_renewal_changes_nothing<E>(
    pre: StreamModel,
    polled: AddPoll<E>,
    post: StreamModel,
    action: Action<E>,
)
    requires
        pre.state == State::Adding,
        polled !is Added,
        transition(pre, Event::Adding(polled), post, action),
    ensures
        post == pre,
        polled is Pending ==> action == Action::<E>::Pending,
        polled matches AddPoll::Failed(error) ==> action == Action::Ready(Some(Err(error))),
{
}

/// Adding a group that the stream follows does nothing. Any other is taken in at once at cursor one
/// by a waiting stream, with a request that asks for every group that is followed from then on, and
/// goes to the end of the queue of a busy one.
pub proof fn group_is_taken_in_or_queued(
    pre: StreamModel,
    group: Seq<u8>,
    post: StreamModel,
    request: Option<SubscribeRequest>,
)
    requires
        adds(pre, group, post, request),
    ensures
        pre.positions.dom().contains(group) ==> post == pre && request is None,
        !pre.positions.dom().contains(group) && pre.state == State::Waiting ==> {
            &&& post.state == State::Adding
            &&& post.positions == pre.positions.insert(group, Some(1u64))
            &&& post.queue == pre.queue
            &&& post.returned == pre.returned
            &&& post.got == pre.got
            &&& request matches Some(request) && request.group_id@ == group && one_filter_each(
                request.filters@,
                post.positions,
            )
        },
        !pre.positions.dom().contains(group) && pre.state != State::Waiting ==> {
            &&& post.state == pre.state
            &&& post.positions == pre.positions
            &&& post.queue == pre.queue.push(group)
            &&& post.returned == pre.returned
            &&& post.got == pre.got
            &&& request is None
        },
{
    assert(pre.positions.dom().contains(group) == pre.positions.contains_key(group));
    if let Some(request) = request {
        filters_are_one_for_each_group(request.filters@, post.positions);
    }
}

/// The position that a new subscription comes with is the cursor that the database has reached for
/// the group, by its bits, and one only where that is zero.
pub proof fn subscription_starts_at_database_cursor(
    filters: Seq<GroupFilter>,
    group: Seq<u8>,
    last_cursor: i64,
    subscription: Subscription,
)
    requires
        subscribes(filters, group, last_cursor, subscription),
    ensures
        subscription.group_id@ == group,
        last_cursor == 0 ==> subscription.cursor == Some(1u64),
        last_cursor > 0 ==> (subscription.cursor matches Some(cursor) && cursor == last_cursor),
        last_cursor < 0 ==> (subscription.cursor matches Some(cursor) && cursor == last_cursor
            + 0x1_0000_0000_0000_0000),
{
}

/// A new subscription asks for the same groups in the same order as was requested. Where the
/// database holds messages of the new group, the first filter for it asks from the cursor on that
/// the database has reached, at whatever index it stands; every other filter is as it was requested.
pub proof fn subscription_moves_one_filter(
    filters: Seq<GroupFilter>,
    group: Seq<u8>,
    last_cursor: i64,
    subscription: Subscription,
    i: int,
)
    requires
        subscribes(filters, group, last_cursor, subscription),
        0 <= i < filters.len(),
    ensures
        subscription.filters@.len() == filters.len(),
        subscription.filters@[i].group_id@ == filters[i].group_id@,
        ({
            let first = filters[i].group_id@ == group && forall|j: int|
                0 <= j < i ==> (#[trigger] filters[j]).group_id@ != group;
            &&& last_cursor > 0 && first ==> (subscription.filters@[i].id_cursor matches Some(
                cursor,
            ) && cursor == last_cursor)
            &&& last_cursor < 0 && first ==> (subscription.filters@[i].id_cursor matches Some(
                cursor,
            ) && cursor == last_cursor + 0x1_0000_0000_0000_0000)
            &&& last_cursor == 0 || !first ==> subscription.filters@[i].id_cursor
                == filters[i].id_cursor
        }),
{
    let first = filters[i].group_id@ == group && forall|j: int|
        0 <= j < i ==> (#[trigger] filters[j]).group_id@ != group;
    if last_cursor != 0 {
        assert(refiltered(
            filters,
            subscription.filters@,
            group,
            subscription.cursor->0,
        ));
        let after = subscription.filters@;
        assert(after[i].group_id@ == filters[i].group_id@);
        if !first && filters[i].group_id@ == group {
            let j = choose|j: int| 0 <= j < i && (#[trigger] filters[j]).group_id@ == group;
            assert(filters[j].group_id@ == group);
        }
    }
}

/// A group that a waiting stream takes in, and of which the database holds messages, is followed from
/// the cursor on that the database has reached: the subscription asks for it from there, and the
/// stream stands there once the subscription does.
pub proof fn group_is_followed_from_database_cursor<E>(
    pre: StreamModel,
    group: Seq<u8>,
    joined: StreamModel,
    request: SubscribeRequest,
    last_cursor: i64,
    subscription: Subscription,
    group_id: Vec<u8>,
    post: StreamModel,
    action: Action<E>,
)
    requires
        pre.state == State::Waiting,
        adds(pre, group, joined, Some(request)),
        last_cursor > 0,
        subscribes(request.filters@, request.group_id@, last_cursor, subscription),
        group_id@ == subscription.group_id@,
        transition(
            joined,
            Event::Adding(AddPoll::Added { group_id, cursor: subscription.cursor }),
            post,
            action,
        ),
        action matches Action::Subscribe(next) ==> next.group_id@ != group,
    ensures
        post.positions.dom().contains(group),
        post.positions[group] matches Some(cursor) && cursor == last_cursor,
        exists|i: int|
            {
                &&& 0 <= i < subscription.filters@.len()
                &&& (#[trigger] subscription.filters@[i]).group_id@ == group
                &&& subscription.filters@[i].id_cursor == subscription.cursor
            },
{
    group_is_taken_in_or_queued(pre, group, joined, Some(request));
    subscription_starts_at_database_cursor(
        request.filters@,
        request.group_id@,
        last_cursor,
        subscription,
    );
    added_group_goes_on(joined, group_id, subscription.cursor, post, action);
    assert(joined.positions.dom().contains(group));
    let i = choose|i: int|
        0 <= i < request.filters@.len() && (#[trigger] request.filters@[i]).group_id@ == group;
    assert forall|j: int| 0 <= j < i implies (#[trigger] request.filters@[j]).group_id@ != group by {
        if request.filters@[j].group_id@ == group {
            assert(request.filters@[j].group_id@ == request.filters@[i].group_id@);
        }
    }
    subscription_moves_one_filter(
        request.filters@,
        request.group_id@,
        last_cursor,
        subscription,
        i,
    );
    assert(subscription.filters@[i].group_id@ == group);
}

/// A poll of the stream and a report on processing can be taken in any state, a report on the
/// subscription by a waiting stream, and a report on a renewal by one that takes in a group.
pub proof fn reports_are_taken<E>(
    state: State,
    inner: InnerPoll<E>,
    envelope: V1,
    processing: ProcessPoll<E>,
    adding: AddPoll<E>,
)
    ensures
        fits(state, Event::<E>::Polled),
        fits(state, Event::Processing(processing)),
        fits(state, Event::Inner(inner)) <==> state == State::Waiting,
        fits(state, Event::Skipped { envelope, polled: inner }) <==> state == State::Waiting,
        fits(state, Event::Adding(adding)) <==> state == State::Adding,
{
}

/// From the message on that a group was opened at, its messages are processed by the new stream;
/// those before it are skipped.
pub proof fn opened_stream_processes_from_latest<E>(
    groups: Seq<Vec<u8>>,
    latest: Seq<Result<Option<GroupMessage>, E>>,
    model: StreamModel,
    k: int,
    i: int,
    value: V1,
    next: V1,
    post: StreamModel,
    action: Action<E>,
)
    requires
        opens(groups, latest, Ok(model)),
        0 <= k < groups.len(),
        0 <= i < latest.len(),
        latest[i] == Ok::<Option<GroupMessage>, E>(
            Some((GroupMessage { version: Some(Version::V1(value)) })),
        ),
        value.group_id@ == groups[k]@,
        forall|j: int| i < j < latest.len() ==> !is_of(#[trigger] latest[j], groups[k]@),
        next.group_id@ == groups[k]@,
        transition(
            model,
            Event::Inner(
                InnerPoll::Message((GroupMessage { version: Some(Version::V1(next)) })),
            ),
            post,
            action,
        ),
    ensures
        next.id >= value.id ==> action == Action::<E>::Process(next),
        next.id < value.id ==> action == Action::<E>::Skip(next),
{
    opens_at_last_message(groups, latest, model, k, i, value);
}

} // verus!
