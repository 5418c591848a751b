//! What holds of every message stream.

use crate::bytes::as_signed;
use crate::error::SubscribeError;
use crate::group_list::{lists_filters, GroupFilter};
use crate::group_message::{GroupMessage, StoredGroupMessage, V1};
use crate::position::pos_of;
use crate::process::{
    entry_follows, is_outcome, processed_by_group, step_follows, Answer, ProcessStep,
    ProcessedMessage, StreamEntry,
};
use crate::stream::{
    adds, at_latest, fits, is_first_for, latest_cursor, requests, sequence_of, subscribes,
    transition, Action, Event, InnerPoll, ProcessPoll, State, StreamModel, SubscribeRequest,
    Subscription,
};
use crate::summary::{MessageIdentifier, SyncSummary};
use vstd::prelude::*;

verus! {

/// What an action calls for suits the state that the stream is left in, so that the event that
/// reports on it can be taken.
pub proof fn action_suits_state<E>(
    pre: StreamModel,
    event: Event<E>,
    post: StreamModel,
    action: Action<E>,
)
    requires
        fits(pre.state, event),
        transition(pre, event, post, action),
    ensures
        action is PollInner ==> post.state == State::Waiting,
        action is Skip ==> post.state == State::Waiting,
        action is Process ==> post.state == State::Processing,
        action is PollProcessing ==> post.state == State::Processing,
        action is Subscribe ==> post.state == State::Adding,
        action is PollAdding ==> post.state == State::Adding,
{
}

/// A poll that is pending leaves the stream as it was.
pub proof fn pending_changes_nothing<E>(
    pre: StreamModel,
    event: Event<E>,
    post: StreamModel,
    action: Action<E>,
)
    requires
        fits(pre.state, event),
        transition(pre, event, post, action),
        action is Pending,
    ensures
        post == pre,
{
}

/// An error that is handed out leaves the stream as it was.
pub proof fn error_changes_nothing<E>(
    pre: StreamModel,
    event: Event<E>,
    post: StreamModel,
    error: SubscribeError<E>,
)
    requires
        fits(pre.state, event),
        transition(pre, event, post, Action::Ready(Some(Err(error)))),
    ensures
        post == pre,
{
}

/// The stream ends only where the subscription has ended while the stream was waiting for the
/// next message, skipping or not.
pub proof fn ends_with_subscription<E>(pre: StreamModel, event: Event<E>, post: StreamModel)
    requires
        fits(pre.state, event),
        transition(pre, event, post, Action::Ready(None)),
    ensures
        event matches Event::Inner(polled) ==> polled is Ended,
        event matches Event::Skipped { envelope, polled } ==> polled is Ended,
        event is Inner || event is Skipped,
        pre.state == State::Waiting,
        post == pre,
{
}

/// A message is processed only when it has just come from the network, and never when the stream
/// is past it.
pub proof fn past_is_not_processed<E>(
    pre: StreamModel,
    event: Event<E>,
    post: StreamModel,
    msg: V1,
)
    requires
        fits(pre.state, event),
        transition(pre, event, post, Action::<E>::Process(msg)),
    ensures
        message_of(event) == Some(msg),
        !pre.is_past(msg),
{
}

/// A message that the stream is not past is processed, also where it comes while the stream is
/// skipping.
pub proof fn not_past_is_processed<E>(
    pre: StreamModel,
    event: Event<E>,
    msg: V1,
    post: StreamModel,
    action: Action<E>,
)
    requires
        message_of(event) == Some(msg),
        !pre.is_past(msg),
        transition(pre, event, post, action),
    ensures
        action == Action::<E>::Process(msg),
        post == pre.received(msg).entered(State::Processing),
{
}

/// While a message is processed, or a group is taken in, a poll of the stream does not get at the
/// next message.
pub proof fn one_thing_at_a_time<E>(pre: StreamModel, post: StreamModel, action: Action<E>)
    requires
        pre.state != State::Waiting,
        transition(pre, Event::Polled, post, action),
    ensures
        post == pre,
        action is PollProcessing <==> pre.state == State::Processing,
        action is PollAdding <==> pre.state == State::Adding,
{
}

/// A message in a version that cannot be read changes nothing, and what was being done is done
/// again.
pub proof fn unreadable_is_passed_over<E>(
    pre: StreamModel,
    message: GroupMessage,
    envelope: V1,
    next: StreamModel,
    next_action: Action<E>,
    skipped: StreamModel,
    skipped_action: Action<E>,
)
    requires
        message.v1() is None,
        pre.state == State::Waiting,
        transition(pre, Event::Inner(InnerPoll::Message(message)), next, next_action),
        transition(
            pre,
            (Event::Skipped { envelope, polled: InnerPoll::Message(message) }),
            skipped,
            skipped_action,
        ),
    ensures
        next == pre,
        next_action is PollInner,
        skipped == pre,
        skipped_action == Action::<E>::Skip(envelope),
{
}

/// A message that the stream is not past, that is then processed, and that the database holds, is
/// handed out. The stream is then waiting again, and has moved the group to the message.
pub proof fn message_is_delivered<E>(
    pre: StreamModel,
    event: Event<E>,
    msg: V1,
    received: StreamModel,
    first: Action<E>,
    summary: SyncSummary,
    stored: StoredGroupMessage,
    processed: ProcessedMessage,
    post: StreamModel,
    second: Action<E>,
)
    requires
        pre.state == State::Waiting,
        message_of(event) == Some(msg),
        !pre.is_past(msg),
        transition(pre, event, received, first),
        is_outcome(processed, msg, summary, Some(stored)),
        transition(
            received,
            Event::Processing(ProcessPoll::Processed(processed)),
            post,
            second,
        ),
    ensures
        first == Action::<E>::Process(msg),
        second == Action::<E>::Ready(Some(Ok(stored))),
        post.state == State::Waiting,
        post.got == pre.got.push(msg.id),
        post.returned == pre.returned.push(sequence_of(stored)),
        post.queue == pre.queue,
        pre.positions.contains_key(stored.group_id@) ==> post.positions
            == pre.positions.insert(stored.group_id@, Some(msg.id)),
        !pre.positions.contains_key(stored.group_id@) ==> post.positions == pre.positions,
{
}

/// A message that was processed and is not in the database is not handed out.
pub proof fn missing_message_is_not_delivered<E>(
    pre: StreamModel,
    msg: V1,
    summary: SyncSummary,
    processed: ProcessedMessage,
    post: StreamModel,
    action: Action<E>,
)
    requires
        is_outcome(processed, msg, summary, None),
        transition(pre, Event::Processing(ProcessPoll::Processed(processed)), post, action),
    ensures
        action !is Ready,
        post.returned == pre.returned,
        post.got == pre.got,
{
}

/// The group that a processed message belongs to.
pub open spec fn group_of(processed: ProcessedMessage) -> Seq<u8> {
    match processed.message {
        Some(msg) => msg.group_id@,
        None => processed.group_id@,
    }
}

/// Once processing has given a cursor for a group that the stream follows, and the stream is
/// waiting again, the messages of the group below that cursor are skipped, and those from it on
/// are processed.
pub proof fn skips_below_cursor<E>(
    pre: StreamModel,
    processed: ProcessedMessage,
    cursor: u64,
    post: StreamModel,
    action: Action<E>,
    event: Event<E>,
    msg: V1,
    next: StreamModel,
    next_action: Action<E>,
)
    requires
        pre.state == State::Processing,
        processed.next_message == Some(cursor),
        pre.positions.contains_key(group_of(processed)),
        transition(pre, Event::Processing(ProcessPoll::Processed(processed)), post, action),
        post.state == State::Waiting,
        message_of(event) == Some(msg),
        msg.group_id@ == group_of(processed),
        transition(post, event, next, next_action),
    ensures
        msg.id < cursor ==> next_action is Skip,
        msg.id >= cursor ==> next_action == Action::<E>::Process(msg),
{
}

/// A stream starts out past the messages that come before the latest message of their group, and
/// past no others.
pub proof fn starts_at_latest<E>(
    groups: Seq<Vec<u8>>,
    latest: Seq<Result<Option<GroupMessage>, E>>,
    start: StreamModel,
    i: int,
    msg: V1,
)
    requires
        start.positions == at_latest(groups, latest),
        0 <= i < groups.len(),
        msg.group_id@ == groups[i]@,
    ensures
        start.positions.contains_key(groups[i]@),
        start.is_past(msg) <==> msg.id < latest_cursor(latest, groups[i]@),
{
    starts_with_given_groups(groups, latest, groups[i]@);
}

/// A stream starts out following the groups that it was given, and no others.
pub proof fn starts_with_given_groups<E>(
    groups: Seq<Vec<u8>>,
    latest: Seq<Result<Option<GroupMessage>, E>>,
    group: Seq<u8>,
)
    ensures
        at_latest(groups, latest).contains_key(group) <==> exists|i: int|
            0 <= i < groups.len() && #[trigger] groups[i]@ == group,
{
}

/// Whether one of `filters` is for `group`.
pub open spec fn is_asked_for(group: Seq<u8>, filters: Seq<GroupFilter>) -> bool {
    exists|i: int| 0 <= i < filters.len() && #[trigger] filters[i].group_id@ == group
}

/// The filters of a stream that starts out are one for each distinct group that it was given, each
/// from the position of the group on, which is the latest cursor known of it.
pub proof fn first_subscription_asks_for_latest<E>(
    groups: Seq<Vec<u8>>,
    latest: Seq<Result<Option<GroupMessage>, E>>,
    start: StreamModel,
    filters: Seq<GroupFilter>,
)
    requires
        start.positions == at_latest(groups, latest),
        lists_filters(filters, start.positions),
    ensures
        forall|i: int|
            0 <= i < filters.len() ==> {
                &&& exists|j: int| 0 <= j < groups.len() && #[trigger] groups[j]@
                    == filters[i].group_id@
                &&& (#[trigger] filters[i]).id_cursor == Some(
                    pos_of(start.positions[filters[i].group_id@]),
                )
                &&& filters[i].id_cursor == Some(latest_cursor(latest, filters[i].group_id@))
            },
        forall|i: int, j: int|
            0 <= i < j < filters.len() ==> #[trigger] filters[i].group_id@
                != #[trigger] filters[j].group_id@,
        forall|j: int|
            0 <= j < groups.len() ==> is_asked_for(#[trigger] groups[j]@, filters),
{
    assert forall|i: int| 0 <= i < filters.len() implies {
        &&& exists|j: int| 0 <= j < groups.len() && #[trigger] groups[j]@ == filters[i].group_id@
        &&& (#[trigger] filters[i]).id_cursor == Some(
            pos_of(start.positions[filters[i].group_id@]),
        )
        &&& filters[i].id_cursor == Some(latest_cursor(latest, filters[i].group_id@))
    } by {
        let group = filters[i].group_id@;
        assert(start.positions.contains_key(group));
        starts_with_given_groups(groups, latest, group);
    }
    assert forall|j: int| 0 <= j < groups.len() implies is_asked_for(
        #[trigger] groups[j]@,
        filters,
    ) by {
        starts_with_given_groups(groups, latest, groups[j]@);
        assert(start.positions.contains_key(groups[j]@));
    }
}

/// What a filter asks for.
pub open spec fn asked(filter: GroupFilter) -> (Seq<u8>, Option<u64>) {
    (filter.group_id@, filter.id_cursor)
}

/// Two lists of filters for the same positions differ in their order alone.
pub proof fn filters_differ_in_order_alone(
    one: Seq<GroupFilter>,
    other: Seq<GroupFilter>,
    positions: Map<Seq<u8>, Option<u64>>,
)
    requires
        lists_filters(one, positions),
        lists_filters(other, positions),
    ensures
        one.map_values(|filter: GroupFilter| asked(filter)).to_multiset() == other.map_values(
            |filter: GroupFilter| asked(filter),
        ).to_multiset(),
{
    let a = one.map_values(|filter: GroupFilter| asked(filter));
    let b = other.map_values(|filter: GroupFilter| asked(filter));
    filters_ask_once(one, positions);
    filters_ask_once(other, positions);
    a.lemma_multiset_has_no_duplicates();
    b.lemma_multiset_has_no_duplicates();
    a.to_multiset_ensures();
    b.to_multiset_ensures();
    assert forall|pair: (Seq<u8>, Option<u64>)| #[trigger] a.to_multiset().count(pair)
        == b.to_multiset().count(pair) by {
        asked_for_in_both(one, other, positions, pair);
        asked_for_in_both(other, one, positions, pair);
        assert(a.contains(pair) <==> a.to_multiset().count(pair) > 0);
        assert(b.contains(pair) <==> b.to_multiset().count(pair) > 0);
        assert(a.to_multiset().contains(pair) ==> a.to_multiset().count(pair) == 1);
        assert(b.to_multiset().contains(pair) ==> b.to_multiset().count(pair) == 1);
    }
    assert(a.to_multiset() =~= b.to_multiset());
}

/// A list of filters asks for nothing twice.
proof fn filters_ask_once(filters: Seq<GroupFilter>, positions: Map<Seq<u8>, Option<u64>>)
    requires
        lists_filters(filters, positions),
    ensures
        filters.map_values(|filter: GroupFilter| asked(filter)).no_duplicates(),
{
    let a = filters.map_values(|filter: GroupFilter| asked(filter));
    assert forall|i: int, j: int| 0 <= i < a.len() && 0 <= j < a.len() && i != j implies a[i]
        != a[j] by {
        if i < j {
            assert(filters[i].group_id@ != filters[j].group_id@);
        } else {
            assert(filters[j].group_id@ != filters[i].group_id@);
        }
    }
}

/// What one list of filters asks for, another for the same positions asks for too.
proof fn asked_for_in_both(
    one: Seq<GroupFilter>,
    other: Seq<GroupFilter>,
    positions: Map<Seq<u8>, Option<u64>>,
    pair: (Seq<u8>, Option<u64>),
)
    requires
        lists_filters(one, positions),
        lists_filters(other, positions),
    ensures
        one.map_values(|filter: GroupFilter| asked(filter)).contains(pair) ==> other.map_values(
            |filter: GroupFilter| asked(filter),
        ).contains(pair),
{
    let a = one.map_values(|filter: GroupFilter| asked(filter));
    let b = other.map_values(|filter: GroupFilter| asked(filter));
    if a.contains(pair) {
        let i = choose|i: int| 0 <= i < a.len() && a[i] == pair;
        assert(positions.contains_key(one[i].group_id@));
        let j = choose|j: int|
            0 <= j < other.len() && #[trigger] other[j].group_id@ == one[i].group_id@;
        assert(b[j] == pair);
    }
}

/// A subscription that takes in a group asks for each group from the position on that the stream
/// has for it once the subscription stands.
pub proof fn subscription_asks_for_positions(
    pre: StreamModel,
    group: Seq<u8>,
    joined: StreamModel,
    request: SubscribeRequest,
    last_cursor: i64,
    subscription: Subscription,
)
    requires
        joined == pre.joining(group),
        requests(request, group, joined.positions),
        subscribes(request.filters@, request.group_id@, last_cursor, subscription),
    ensures
        subscription.group_id@ == group,
        lists_filters(
            subscription.filters@,
            joined.moved(subscription.group_id@, subscription.cursor).positions,
        ),
{
    let before = request.filters@;
    let after = subscription.filters@;
    let positions = joined.positions;
    let cursor = subscription.cursor->0;
    let new_positions = positions.insert(group, Some(cursor));
    assert(joined.moved(subscription.group_id@, subscription.cursor).positions == new_positions);
    if last_cursor == 0 {
        assert(new_positions =~= positions);
    } else {
        assert forall|i: int| 0 <= i < after.len() implies {
            &&& new_positions.contains_key(#[trigger] after[i].group_id@)
            &&& after[i].id_cursor == Some(pos_of(new_positions[after[i].group_id@]))
        } by {
            assert(after[i].group_id@ == before[i].group_id@);
            assert(positions.contains_key(before[i].group_id@));
            if before[i].group_id@ == group {
                assert(is_first_for(before, group, i)) by {
                    assert forall|j: int| 0 <= j < i implies #[trigger] before[j].group_id@
                        != group by {
                        assert(before[j].group_id@ != before[i].group_id@);
                    }
                }
            }
        }
        assert forall|i: int, j: int| 0 <= i < j < after.len() implies #[trigger] after[i].group_id@
            != #[trigger] after[j].group_id@ by {
            assert(before[i].group_id@ != before[j].group_id@);
        }
        assert forall|g: Seq<u8>| #[trigger] new_positions.contains_key(g) implies exists|i: int|
            0 <= i < after.len() && #[trigger] after[i].group_id@ == g by {
            assert(positions.contains_key(g));
            let i = choose|i: int|
                0 <= i < before.len() && #[trigger] before[i].group_id@ == g;
            assert(after[i].group_id@ == g);
        }
    }
}

/// A group that is taken in from the queue is followed from cursor one on, and the
/// request asks for every group that the stream then follows.
pub proof fn taken_in_group_is_followed<E>(
    pre: StreamModel,
    event: Event<E>,
    post: StreamModel,
    request: SubscribeRequest,
)
    requires
        fits(pre.state, event),
        transition(pre, event, post, Action::<E>::Subscribe(request)),
    ensures
        pre.queue.len() > 0,
        request.group_id@ == pre.queue[0],
        post.positions.contains_key(request.group_id@),
        post.positions[request.group_id@] == Some(1u64),
        lists_filters(request.filters@, post.positions),
{
}

/// Receiving messages, and skipping them, moves no position.
pub proof fn receiving_moves_no_position<E>(
    pre: StreamModel,
    event: Event<E>,
    post: StreamModel,
    action: Action<E>,
)
    requires
        event is Inner || event is Skipped,
        transition(pre, event, post, action),
    ensures
        post.positions == pre.positions,
        post.queue == pre.queue,
        post.returned == pre.returned,
{
}

/// Processing a message moves the position of its group alone; only a group that is taken in next
/// is put to a position with it.
pub proof fn processing_moves_its_group_alone<E>(
    pre: StreamModel,
    processed: ProcessedMessage,
    post: StreamModel,
    action: Action<E>,
    group: Seq<u8>,
)
    requires
        transition(pre, Event::Processing(ProcessPoll::Processed(processed)), post, action),
        group != group_of(processed),
        action matches Action::Subscribe(request) ==> group != request.group_id@,
    ensures
        post.positions.contains_key(group) <==> pre.positions.contains_key(group),
        pre.positions.contains_key(group) ==> post.positions[group] == pre.positions[group],
{
}

/// Adding a group a second time does nothing, where the stream was not busy the first time or
/// followed the group already.
pub proof fn adding_twice_is_adding_once(
    pre: StreamModel,
    group: Seq<u8>,
    once: StreamModel,
    first: Option<SubscribeRequest>,
    twice: StreamModel,
    second: Option<SubscribeRequest>,
)
    requires
        pre.state == State::Waiting || pre.positions.contains_key(group),
        adds(pre, group, once, first),
        adds(once, group, twice, second),
    ensures
        once.positions.contains_key(group),
        twice == once,
        second is None,
{
}

/// Something that happens to a stream.
pub enum Move<E> {
    /// an event, and the action that it calls for
    Step(Event<E>, Action<E>),
    /// a group is added, with the request that it calls for
    Add(Seq<u8>, Option<SubscribeRequest>),
}

/// Whether `made` takes the stream from `pre` to `post`.
pub open spec fn makes<E>(pre: StreamModel, made: Move<E>, post: StreamModel) -> bool {
    match made {
        Move::Step(event, action) => fits(pre.state, event) && transition(
            pre,
            event,
            post,
            action,
        ),
        Move::Add(group, request) => adds(pre, group, post, request),
    }
}

/// Whether the stream goes through `models` by `moves`.
pub open spec fn is_run<E>(models: Seq<StreamModel>, moves: Seq<Move<E>>) -> bool {
    &&& models.len() == moves.len() + 1
    &&& forall|i: int| 0 <= i < moves.len() ==> makes(models[i], #[trigger] moves[i], models[i + 1])
}

/// The sequence ids of the messages that are handed out by `moves`, in their order.
pub open spec fn handed_out<E>(moves: Seq<Move<E>>) -> Seq<u64>
    decreases moves.len(),
{
    if moves.len() == 0 {
        Seq::empty()
    } else {
        match moves.last() {
            Move::Step(_, Action::Ready(Some(Ok(msg)))) => handed_out(moves.drop_last()).push(
                sequence_of(msg),
            ),
            _ => handed_out(moves.drop_last()),
        }
    }
}

/// The readable message that comes with an event.
pub open spec fn message_of<E>(event: Event<E>) -> Option<V1> {
    match event {
        Event::Inner(InnerPoll::Message(message)) => message.v1(),
        Event::Skipped { envelope, polled: InnerPoll::Message(message) } => message.v1(),
        _ => None,
    }
}

/// The cursors of the readable messages that come from the network with `moves`, in their order.
pub open spec fn received<E>(moves: Seq<Move<E>>) -> Seq<u64>
    decreases moves.len(),
{
    if moves.len() == 0 {
        Seq::empty()
    } else {
        match moves.last() {
            Move::Step(event, _) if message_of(event) is Some => received(moves.drop_last()).push(
                message_of(event)->0.id,
            ),
            _ => received(moves.drop_last()),
        }
    }
}

/// The groups that are put into the queue by `moves`, in their order.
pub open spec fn queued<E>(models: Seq<StreamModel>, moves: Seq<Move<E>>) -> Seq<Seq<u8>>
    decreases moves.len(),
{
    if moves.len() == 0 {
        Seq::empty()
    } else {
        let before = queued(models, moves.drop_last());
        let model = models[moves.len() - 1];
        match moves.last() {
            Move::Add(group, _) if model.state != State::Waiting && !model.positions.contains_key(
                group,
            ) => before.push(group),
            _ => before,
        }
    }
}

/// The groups that are taken out of the queue by `moves`, in their order.
pub open spec fn served<E>(moves: Seq<Move<E>>) -> Seq<Seq<u8>>
    decreases moves.len(),
{
    if moves.len() == 0 {
        Seq::empty()
    } else {
        match moves.last() {
            Move::Step(_, Action::Subscribe(request)) => served(moves.drop_last()).push(
                request.group_id@,
            ),
            _ => served(moves.drop_last()),
        }
    }
}

/// A run without its last move.
proof fn shorter_run<E>(models: Seq<StreamModel>, moves: Seq<Move<E>>)
    requires
        is_run(models, moves),
        moves.len() > 0,
    ensures
        is_run(models.drop_last(), moves.drop_last()),
        makes(models[moves.len() - 1], moves.last(), models.last()),
{
    let last = moves.len() - 1;
    assert(makes(models[last], moves[last], models[last + 1]));
    assert forall|i: int| 0 <= i < moves.drop_last().len() implies makes(
        models.drop_last()[i],
        #[trigger] moves.drop_last()[i],
        models.drop_last()[i + 1],
    ) by {
        assert(makes(models[i], moves[i], models[i + 1]));
    }
}

/// A group that the stream follows, it goes on following.
pub proof fn groups_stay_followed<E>(
    models: Seq<StreamModel>,
    moves: Seq<Move<E>>,
    group: Seq<u8>,
)
    requires
        is_run(models, moves),
        models.first().positions.contains_key(group),
    ensures
        models.last().positions.contains_key(group),
    decreases moves.len(),
{
    if moves.len() > 0 {
        shorter_run(models, moves);
        groups_stay_followed(models.drop_last(), moves.drop_last(), group);
    }
}

/// An event drops no group and adds none but the one that it takes from the queue. A message of a
/// group that the stream does not follow adds none.
pub proof fn events_add_queued_groups_alone<E>(
    pre: StreamModel,
    event: Event<E>,
    post: StreamModel,
    action: Action<E>,
)
    requires
        fits(pre.state, event),
        transition(pre, event, post, action),
    ensures
        post.positions.dom() == (match action {
            Action::Subscribe(request) => pre.positions.dom().insert(request.group_id@),
            _ => pre.positions.dom(),
        }),
        action matches Action::Subscribe(request) ==> pre.queue.len() > 0 && request.group_id@
            == pre.queue[0] && post.queue == pre.queue.skip(1),
        action !is Subscribe ==> post.queue == pre.queue,
{
    let domain = match action {
        Action::Subscribe(request) => pre.positions.dom().insert(request.group_id@),
        _ => pre.positions.dom(),
    };
    assert(post.positions.dom() =~= domain);
}

/// Polls alone, however many, drop no group and add none but those that they take from the queue,
/// which are the first ones in it.
pub proof fn polls_add_queued_groups_alone<E>(models: Seq<StreamModel>, moves: Seq<Move<E>>)
    requires
        is_run(models, moves),
        forall|i: int| 0 <= i < moves.len() ==> #[trigger] moves[i] is Step,
    ensures
        models.last().positions.dom() == models.first().positions.dom().union(
            served(moves).to_set(),
        ),
        models.first().queue == served(moves) + models.last().queue,
    decreases moves.len(),
{
    if moves.len() > 0 {
        shorter_run(models, moves);
        let fewer = moves.drop_last();
        assert forall|i: int| 0 <= i < fewer.len() implies #[trigger] fewer[i] is Step by {
            assert(fewer[i] == moves[i]);
        }
        polls_add_queued_groups_alone(models.drop_last(), fewer);
        let pre = models[moves.len() - 1];
        let post = models.last();
        assert(moves[moves.len() - 1] is Step);
        if let Move::Step(event, action) = moves.last() {
            events_add_queued_groups_alone(pre, event, post, action);
            if let Action::Subscribe(request) = action {
                let group = request.group_id@;
                assert(pre.queue =~= seq![group] + post.queue);
                assert(served(fewer) + pre.queue =~= served(fewer).push(group) + post.queue);
                assert(served(fewer).push(group).to_set() =~= served(fewer).to_set().insert(
                    group,
                )) by {
                    assert(served(fewer).push(group).last() == group);
                    assert forall|g: Seq<u8>| #[trigger] served(fewer).contains(g) implies served(
                        fewer,
                    ).push(group).contains(g) by {
                        let i = choose|i: int|
                            0 <= i < served(fewer).len() && served(fewer)[i] == g;
                        assert(served(fewer).push(group)[i] == g);
                    }
                }
            }
        }
        assert(post.positions.dom() =~= models.first().positions.dom().union(
            served(moves).to_set(),
        ));
    } else {
        assert(models.last().positions.dom() =~= models.first().positions.dom().union(
            served(moves).to_set(),
        ));
        assert(models.first().queue =~= served(moves) + models.last().queue);
    }
}

/// Adding a group drops none and adds no other.
pub proof fn add_adds_its_group_alone(
    pre: StreamModel,
    group: Seq<u8>,
    post: StreamModel,
    request: Option<SubscribeRequest>,
)
    requires
        adds(pre, group, post, request),
    ensures
        request is Some ==> post.positions.dom() == pre.positions.dom().insert(group),
        request is None ==> post.positions.dom() == pre.positions.dom(),
{
    assert(request is Some ==> post.positions.dom() =~= pre.positions.dom().insert(group));
}

/// The stream keeps the sequence ids of the messages that it has handed out, in that order.
pub proof fn returned_is_what_was_handed_out<E>(models: Seq<StreamModel>, moves: Seq<Move<E>>)
    requires
        is_run(models, moves),
    ensures
        models.last().returned == models.first().returned + handed_out(moves),
    decreases moves.len(),
{
    if moves.len() > 0 {
        shorter_run(models, moves);
        returned_is_what_was_handed_out(models.drop_last(), moves.drop_last());
    }
}

/// The stream keeps the cursors of the messages that came from the network, in that order, those
/// that it skipped among them.
pub proof fn got_is_what_was_received<E>(models: Seq<StreamModel>, moves: Seq<Move<E>>)
    requires
        is_run(models, moves),
    ensures
        models.last().got == models.first().got + received(moves),
    decreases moves.len(),
{
    if moves.len() > 0 {
        shorter_run(models, moves);
        got_is_what_was_received(models.drop_last(), moves.drop_last());
    }
}

/// The groups that wait are taken in in the order in which they came, and none is lost.
pub proof fn queue_is_first_in_first_out<E>(models: Seq<StreamModel>, moves: Seq<Move<E>>)
    requires
        is_run(models, moves),
    ensures
        models.first().queue + queued(models, moves) == served(moves) + models.last().queue,
    decreases moves.len(),
{
    if moves.len() > 0 {
        shorter_run(models, moves);
        queue_is_first_in_first_out(models.drop_last(), moves.drop_last());
        queued_by_models(models, models.drop_last(), moves.drop_last());
        let pre = models[moves.len() - 1];
        let post = models.last();
        match moves.last() {
            Move::Step(event, Action::Subscribe(request)) => {
                assert(pre.queue =~= seq![request.group_id@] + post.queue);
                assert(served(moves.drop_last()) + pre.queue =~= served(moves) + post.queue);
            },
            Move::Add(group, _) => {
                if pre.state != State::Waiting && !pre.positions.contains_key(group) {
                    assert(models.first().queue + queued(models, moves) =~= (models.first().queue
                        + queued(models, moves.drop_last())).push(group));
                    assert(served(moves) + post.queue =~= (served(moves.drop_last())
                        + pre.queue).push(group));
                }
            },
            _ => {
                assert(post.queue == pre.queue);
            },
        }
    }
}

/// What is queued depends on the models that the moves start from alone.
proof fn queued_by_models<E>(
    models: Seq<StreamModel>,
    others: Seq<StreamModel>,
    moves: Seq<Move<E>>,
)
    requires
        moves.len() <= models.len(),
        moves.len() <= others.len(),
        forall|i: int| 0 <= i < moves.len() ==> #[trigger] models[i] == others[i],
    ensures
        queued(models, moves) == queued(others, moves),
    decreases moves.len(),
{
    if moves.len() > 0 {
        queued_by_models(models, others, moves.drop_last());
    }
}

/// While skipping, messages that the stream is past are passed over, however many there are, and
/// nothing but what was received changes.
pub proof fn skipping_passes_over_past_messages<E>(
    models: Seq<StreamModel>,
    moves: Seq<Move<E>>,
    envelope: V1,
    messages: Seq<GroupMessage>,
)
    requires
        is_run(models, moves),
        moves.len() == messages.len(),
        models.first().state == State::Waiting,
        forall|i: int|
            0 <= i < moves.len() ==> {
                &&& #[trigger] moves[i] matches Move::Step(event, _) && event == (Event::<
                    E,
                >::Skipped { envelope, polled: InnerPoll::Message(messages[i]) })
                &&& messages[i].v1() matches Some(msg) && models.first().is_past(msg)
            },
    ensures
        forall|i: int|
            0 <= i < moves.len() ==> (#[trigger] moves[i] matches Move::Step(_, action) && action
                == Action::<E>::Skip(envelope)),
        models.last() == (StreamModel {
            got: models.first().got + received(moves),
            ..models.first()
        }),
    decreases moves.len(),
{
    if moves.len() > 0 {
        shorter_run(models, moves);
        let fewer = moves.drop_last();
        assert forall|i: int| 0 <= i < fewer.len() implies {
            &&& #[trigger] fewer[i] matches Move::Step(event, _) && event == (Event::<
                E,
            >::Skipped { envelope, polled: InnerPoll::Message(messages.drop_last()[i]) })
            &&& messages.drop_last()[i].v1() matches Some(msg)
                && models.drop_last().first().is_past(msg)
        } by {
            assert(fewer[i] == moves[i]);
        }
        skipping_passes_over_past_messages(
            models.drop_last(),
            fewer,
            envelope,
            messages.drop_last(),
        );
        got_is_what_was_received(models, moves);
        assert(moves[moves.len() - 1] == moves.last());
        assert forall|i: int| 0 <= i < moves.len() implies (
        #[trigger] moves[i] matches Move::Step(_, action) && action == Action::<E>::Skip(
            envelope,
        )) by {
            if i < fewer.len() {
                assert(fewer[i] == moves[i]);
            }
        }
    }
}

/// How far the processing of a message has come with `step`.
pub open spec fn stage<E>(step: ProcessStep<E>) -> nat {
    match step {
        ProcessStep::LastCursor { .. } => 0,
        ProcessStep::Entry => 1,
        ProcessStep::Recover { .. } => 2,
        ProcessStep::Load { .. } => 3,
        ProcessStep::Finished(_) => 4,
    }
}

/// Whether `answer` reports on what `step` calls for.
pub open spec fn answers<E>(step: ProcessStep<E>, answer: Answer<E>) -> bool {
    match step {
        ProcessStep::LastCursor { .. } => answer is LastCursor,
        ProcessStep::Entry => answer is Entry,
        ProcessStep::Recover { .. } => answer is Recovery,
        ProcessStep::Load { group_id, created_ns, summary } => {
            answer matches Answer::Stored { summary: handed_back, stored } && handed_back == summary
        },
        ProcessStep::Finished(_) => false,
    }
}

/// Whether the processing of `msg` goes through `steps`, each following from the report on the one
/// before.
pub open spec fn is_processing<E>(
    msg: V1,
    steps: Seq<ProcessStep<E>>,
    reports: Seq<Answer<E>>,
) -> bool {
    &&& steps.len() == reports.len() + 1
    &&& step_follows(msg, Answer::Start, steps.first())
    &&& forall|i: int|
        0 <= i < reports.len() ==> answers(steps[i], #[trigger] reports[i]) && step_follows(
            msg,
            reports[i],
            steps[i + 1],
        )
}

/// Processing a message comes to an end: every report brings it on, and after four it is finished.
pub proof fn processing_comes_to_an_end<E>(
    msg: V1,
    steps: Seq<ProcessStep<E>>,
    reports: Seq<Answer<E>>,
)
    requires
        is_processing(msg, steps, reports),
    ensures
        reports.len() <= stage(steps.last()) <= 4,
        steps.last() is Finished <==> stage(steps.last()) == 4,
    decreases reports.len(),
{
    if reports.len() > 0 {
        shorter_processing(msg, steps, reports);
        processing_comes_to_an_end(msg, steps.drop_last(), reports.drop_last());
    }
}

/// Processing without its last step.
proof fn shorter_processing<E>(msg: V1, steps: Seq<ProcessStep<E>>, reports: Seq<Answer<E>>)
    requires
        is_processing(msg, steps, reports),
        reports.len() > 0,
    ensures
        is_processing(msg, steps.drop_last(), reports.drop_last()),
        answers(steps.drop_last().last(), reports.last()),
        step_follows(msg, reports.last(), steps.last()),
{
    let last = reports.len() - 1;
    assert(answers(steps[last], reports[last]));
    assert forall|i: int| 0 <= i < reports.drop_last().len() implies answers(
        steps.drop_last()[i],
        #[trigger] reports.drop_last()[i],
    ) && step_follows(msg, reports.drop_last()[i], steps.drop_last()[i + 1]) by {
        assert(answers(steps[i], reports[i]));
    }
}

/// Processing that finishes without an error has asked the database for the message, hands on what
/// the database held, and names the group and the cursor of the message from the network.
pub proof fn processing_hands_on_what_is_stored<E>(
    msg: V1,
    steps: Seq<ProcessStep<E>>,
    reports: Seq<Answer<E>>,
    processed: ProcessedMessage,
)
    requires
        is_processing(msg, steps, reports),
        steps.last() == ProcessStep::<E>::Finished(Ok(processed)),
    ensures
        reports.len() > 0,
        reports.last() matches Answer::Stored { summary, stored } && stored == Ok::<
            Option<StoredGroupMessage>,
            SubscribeError<E>,
        >(processed.message),
        processed.group_id@ == msg.group_id@,
        processed.tried_to_process == msg.id,
        processed.next_message is Some,
        processed.message is Some ==> processed.next_message == Some(msg.id),
{
    if reports.len() > 0 {
        shorter_processing(msg, steps, reports);
    }
}

/// Processing always gives a cursor to go on at, with a message or without one. It is set back to
/// zero where no message was stored and nothing was processed.
pub proof fn processing_gives_cursor(
    processed: ProcessedMessage,
    msg: V1,
    summary: SyncSummary,
    stored: Option<StoredGroupMessage>,
)
    requires
        is_outcome(processed, msg, summary, stored),
    ensures
        processed.next_message is Some,
        stored is None && summary.is_empty() ==> processed.next_message == Some(0u64),
{
}

/// A stream that was not able to load a message does not go on past any message that was new.
pub proof fn goes_on_before_new_messages(
    processed: ProcessedMessage,
    msg: V1,
    summary: SyncSummary,
    i: int,
)
    requires
        is_outcome(processed, msg, summary, None),
        0 <= i < summary.process.new_messages@.len(),
    ensures
        processed.next_message matches Some(next) && next
            <= summary.process.new_messages@[i].cursor,
{
}

/// A message that needs no sync, because the database is said to be up to it, is passed even where
/// it cannot be loaded: the stream goes on at its own cursor.
pub proof fn synced_message_is_passed(
    processed: ProcessedMessage,
    msg: V1,
    identifier: MessageIdentifier,
    summary: SyncSummary,
    stored: Option<StoredGroupMessage>,
)
    requires
        identifier.names(msg),
        summary.is_single(identifier),
        is_outcome(processed, msg, summary, stored),
    ensures
        processed.next_message == Some(msg.id),
{
    assert(summary.process.new_messages@[0] == identifier);
}

/// A message that the group has processed, whether now or before, and that cannot be loaded, sends
/// the stream on at the cursor that the group gave.
pub proof fn processed_message_is_passed<E>(
    result: Result<MessageIdentifier, SubscribeError<E>>,
    identifier: MessageIdentifier,
    summary: SyncSummary,
    msg: V1,
    processed: ProcessedMessage,
)
    requires
        processed_by_group(result) == Some(identifier),
        entry_follows(result, StreamEntry::Summary(summary)),
        is_outcome(processed, msg, summary, None),
    ensures
        processed.next_message == Some(identifier.cursor),
{
    assert(summary.process.new_messages@[0] == identifier);
}

/// Cursors that a signed integer can hold are compared with the database's by their values.
pub proof fn ordinary_cursors_keep_their_value(cursor: u64)
    requires
        cursor <= i64::MAX,
    ensures
        as_signed(cursor) == cursor,
{
}

} // verus!
