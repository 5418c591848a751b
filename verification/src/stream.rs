//! The message stream over a set of groups.
//!
//! The subscription and the futures of the stream are polled by the caller. Each function
//! here takes what came of a poll, moves the stream on, and says what to poll next.

use crate::bytes::{as_unsigned, copy_bytes, same_bytes, to_unsigned};
use crate::error::{MessageStreamError, SubscribeError};
use crate::group_list::{at_zero, lists_filters, moved, GroupFilter, GroupList};
use crate::group_message::{extract_message_v1, GroupMessage, StoredGroupMessage, Version, V1};
use crate::position::{rank, MessagePosition};
use crate::process::ProcessedMessage;
use std::collections::VecDeque;
use vstd::prelude::*;

verus! {

/// What a stream is busy with.
#[derive(Debug, Copy, Clone, PartialEq, Eq, Structural)]
pub enum State {
    /// State that indicates the stream is waiting on the next message from the network
    Waiting,
    /// state that indicates the stream is waiting on a IO/Network future to finish processing
    /// the current message before moving on to the next one
    Processing,
    /// the stream is waiting on a new subscription that includes an added group
    Adding,
}

impl Default for State {
    fn default() -> (state: State)
        ensures
            state == State::Waiting,
    {
        State::Waiting
    }
}

/// A request for a new subscription.
#[derive(Debug, Clone, PartialEq, Eq)]
pub struct SubscribeRequest {
    pub filters: Vec<GroupFilter>,
    /// the group that the subscription is renewed for
    pub group_id: Vec<u8>,
}

/// A subscription to ask the backend for, and where the stream will be once it stands.
#[derive(Debug, Clone, PartialEq, Eq)]
pub struct Subscription {
    pub filters: Vec<GroupFilter>,
    pub group_id: Vec<u8>,
    pub cursor: Option<u64>,
}

/// What came of a poll of the subscription.
#[derive(Debug)]
pub enum InnerPoll<E> {
    Pending,
    Ended,
    Failed(E),
    Message(GroupMessage),
}

/// The next message of the subscription.
#[derive(Debug)]
pub enum NextMessage<E> {
    /// a message came that this client cannot read: the subscription has to be polled again
    Unreadable,
    Pending,
    Ended,
    Failed(SubscribeError<E>),
    Message(V1),
}

/// How far the stream has got with skipping.
#[derive(Debug)]
pub enum SkipStep<E> {
    /// the next message has to be looked at; this one began the skipping
    Skipping(V1),
    Pending,
    /// the subscription has ended
    Ended,
    Failed(SubscribeError<E>),
    /// the message to go on with
    Finished(V1),
}

/// What came of a poll of the future that processes a message.
#[derive(Debug)]
pub enum ProcessPoll<E> {
    Pending,
    Failed(SubscribeError<E>),
    Processed(ProcessedMessage),
}

/// What came of a poll of the future that renews the subscription.
#[derive(Debug)]
pub enum AddPoll<E> {
    Pending,
    Failed(SubscribeError<E>),
    Added { group_id: Vec<u8>, cursor: Option<u64> },
}

/// What the caller has to do next.
#[derive(Debug)]
pub enum Action<E> {
    /// poll the subscription for the next message
    PollInner,
    /// poll the subscription for the next message, skipping since this one
    Skip(V1),
    /// start to process this message, then poll that future
    Process(V1),
    /// poll the future that processes the current message
    PollProcessing,
    /// start to renew the subscription, then poll that future
    Subscribe(SubscribeRequest),
    /// poll the future that renews the subscription
    PollAdding,
    /// the poll of the stream is pending
    Pending,
    /// the poll of the stream is ready
    Ready(Option<Result<StoredGroupMessage, SubscribeError<E>>>),
}

/// What the caller reports to a stream.
#[derive(Debug)]
pub enum Event<E> {
    /// the stream is polled
    Polled,
    /// what came of [`Action::PollInner`]
    Inner(InnerPoll<E>),
    /// what came of [`Action::Skip`]
    Skipped { envelope: V1, polled: InnerPoll<E> },
    /// what came of [`Action::Process`] or [`Action::PollProcessing`]
    Processing(ProcessPoll<E>),
    /// what came of [`Action::Subscribe`] or [`Action::PollAdding`]
    Adding(AddPoll<E>),
}

/// What a stream holds.
#[verifier::ext_equal]
pub struct StreamModel {
    pub state: State,
    /// the groups that the stream follows, with their positions
    pub positions: Map<Seq<u8>, Option<u64>>,
    /// the groups that wait to be added, the one that is next first
    pub queue: Seq<Seq<u8>>,
    /// the sequence ids of the messages that the stream handed out
    pub returned: Seq<u64>,
    /// the cursors of the messages that came from the network
    pub got: Seq<u64>,
}

impl StreamModel {
    /// The stream as it starts out to add `group`.
    pub open spec fn joining(self, group: Seq<u8>) -> StreamModel {
        StreamModel {
            state: State::Adding,
            positions: self.positions.insert(group, Some(1u64)),
            ..self
        }
    }

    /// The stream with `group` moved to `cursor`, where there is one.
    pub open spec fn moved(self, group: Seq<u8>, cursor: Option<u64>) -> StreamModel {
        match cursor {
            Some(c) => StreamModel { positions: moved(self.positions, group, c), ..self },
            None => self,
        }
    }

    /// The stream in `state`.
    pub open spec fn entered(self, state: State) -> StreamModel {
        StreamModel { state, ..self }
    }

    /// The stream with `msg` received from the network.
    pub open spec fn received(self, msg: V1) -> StreamModel {
        StreamModel { got: self.got.push(msg.id), ..self }
    }

    /// The stream with `msg` handed out.
    pub open spec fn handed_out(self, msg: StoredGroupMessage) -> StreamModel {
        StreamModel { returned: self.returned.push(sequence_of(msg)), ..self }
    }

    /// Whether the stream is past `msg`: it follows the group, from a later cursor on.
    pub open spec fn is_past(self, msg: V1) -> bool {
        &&& self.positions.contains_key(msg.group_id@)
        &&& rank(self.positions[msg.group_id@]) > msg.id
    }
}

/// The sequence id of a message as the stream keeps it: unsigned, zero where there is none.
pub open spec fn sequence_of(msg: StoredGroupMessage) -> u64 {
    match msg.sequence_id {
        Some(id) => as_unsigned(id) as u64,
        None => 0,
    }
}

/// Whether `request` renews the subscription for `group`: it asks for all of `positions`.
pub open spec fn requests(
    request: SubscribeRequest,
    group: Seq<u8>,
    positions: Map<Seq<u8>, Option<u64>>,
) -> bool {
    &&& request.group_id@ == group
    &&& lists_filters(request.filters@, positions)
}

/// Whether polling the stream takes it from `pre` to `post` and calls for `action`: what the
/// stream is busy with is polled; with nothing under way, the first group that waits is added,
/// and only with none waiting is the next message asked for.
pub open spec fn polls<E>(pre: StreamModel, post: StreamModel, action: Action<E>) -> bool {
    match pre.state {
        State::Processing => post == pre && action is PollProcessing,
        State::Adding => post == pre && action is PollAdding,
        State::Waiting => if pre.queue.len() > 0 {
            let group = pre.queue[0];
            &&& post == (StreamModel { queue: pre.queue.skip(1), ..pre }).joining(group)
            &&& action matches Action::Subscribe(request) && requests(
                request,
                group,
                post.positions,
            )
        } else {
            post == pre && action is PollInner
        },
    }
}

/// Whether adding `group` takes the stream from `pre` to `post` and calls for `request`: a group
/// that the stream follows is left alone; another is taken in at once while the stream is waiting,
/// and is queued while it is busy.
pub open spec fn adds(
    pre: StreamModel,
    group: Seq<u8>,
    post: StreamModel,
    request: Option<SubscribeRequest>,
) -> bool {
    if pre.positions.contains_key(group) {
        post == pre && request is None
    } else if pre.state == State::Waiting {
        &&& post == pre.joining(group)
        &&& request matches Some(request) && requests(request, group, post.positions)
    } else {
        &&& post == (StreamModel { queue: pre.queue.push(group), ..pre })
        &&& request is None
    }
}

/// Whether a poll of the processing future takes the stream from `pre` to `post` and calls for
/// `action`: a message is handed out; where there is none, the stream is polled anew. Either way
/// the group moves to the cursor that the processing gave.
pub open spec fn resolves<E>(
    pre: StreamModel,
    polled: ProcessPoll<E>,
    post: StreamModel,
    action: Action<E>,
) -> bool {
    if pre.state != State::Processing {
        post == pre && action is Pending
    } else {
        match polled {
            ProcessPoll::Pending => post == pre && action is Pending,
            ProcessPoll::Failed(error) => post == pre && action == Action::Ready(Some(Err(error))),
            ProcessPoll::Processed(processed) => match processed.message {
                Some(msg) => {
                    &&& post == pre.entered(State::Waiting).handed_out(msg).moved(
                        msg.group_id@,
                        processed.next_message,
                    )
                    &&& action == Action::<E>::Ready(Some(Ok(msg)))
                },
                None => polls(
                    pre.entered(State::Waiting).moved(processed.group_id@, processed.next_message),
                    post,
                    action,
                ),
            },
        }
    }
}

/// Whether a poll of the future that renews the subscription takes the stream from `pre` to `post`
/// and calls for `action`: once the new subscription stands, the group moves to its cursor, and the
/// stream is polled anew.
pub open spec fn renews<E>(
    pre: StreamModel,
    polled: AddPoll<E>,
    post: StreamModel,
    action: Action<E>,
) -> bool {
    match polled {
        AddPoll::Pending => post == pre && action is Pending,
        AddPoll::Failed(error) => post == pre && action == Action::Ready(Some(Err(error))),
        AddPoll::Added { group_id, cursor } => polls(
            pre.entered(State::Waiting).moved(group_id@, cursor),
            post,
            action,
        ),
    }
}

/// Whether a poll of the subscription, made for the next message, takes the stream from `pre` to
/// `post` and calls for `action`: a message that the stream is past starts off skipping, any other
/// is processed, and one that cannot be read is passed over.
pub open spec fn receives<E>(
    pre: StreamModel,
    polled: InnerPoll<E>,
    post: StreamModel,
    action: Action<E>,
) -> bool {
    match polled {
        InnerPoll::Pending => post == pre && action is Pending,
        InnerPoll::Ended => post == pre && action == Action::<E>::Ready(None),
        InnerPoll::Failed(error) => post == pre && action == Action::Ready(
            Some(Err(SubscribeError::BoxError(error))),
        ),
        InnerPoll::Message(message) => match message.v1() {
            None => post == pre && action is PollInner,
            Some(msg) => if pre.is_past(msg) {
                post == pre.received(msg) && action == Action::<E>::Skip(msg)
            } else {
                &&& post == pre.received(msg).entered(State::Processing)
                &&& action == Action::<E>::Process(msg)
            },
        },
    }
}

/// Whether a poll of the subscription, made while skipping since `envelope`, takes the stream from
/// `pre` to `post` and calls for `action`: messages that the stream is past are passed over, the
/// first other one is processed, and the end of the subscription ends the stream.
pub open spec fn skips<E>(
    pre: StreamModel,
    envelope: V1,
    polled: InnerPoll<E>,
    post: StreamModel,
    action: Action<E>,
) -> bool {
    match polled {
        InnerPoll::Pending => post == pre && action is Pending,
        InnerPoll::Ended => post == pre && action == Action::<E>::Ready(None),
        InnerPoll::Failed(error) => post == pre && action == Action::Ready(
            Some(Err(SubscribeError::BoxError(error))),
        ),
        InnerPoll::Message(message) => match message.v1() {
            None => post == pre && action == Action::<E>::Skip(envelope),
            Some(msg) => if pre.is_past(msg) {
                post == pre.received(msg) && action == Action::<E>::Skip(envelope)
            } else {
                &&& post == pre.received(msg).entered(State::Processing)
                &&& action == Action::<E>::Process(msg)
            },
        },
    }
}

/// Whether `event` can come to a stream in `state`.
pub open spec fn fits<E>(state: State, event: Event<E>) -> bool {
    match event {
        Event::Polled | Event::Processing(_) => true,
        Event::Inner(_) | Event::Skipped { .. } => state == State::Waiting,
        Event::Adding(_) => state == State::Adding,
    }
}

/// Whether `event` takes the stream from `pre` to `post` and calls for `action`.
pub open spec fn transition<E>(
    pre: StreamModel,
    event: Event<E>,
    post: StreamModel,
    action: Action<E>,
) -> bool {
    match event {
        Event::Polled => polls(pre, post, action),
        Event::Inner(polled) => receives(pre, polled, post, action),
        Event::Skipped { envelope, polled } => skips(pre, envelope, polled, post, action),
        Event::Processing(polled) => resolves(pre, polled, post, action),
        Event::Adding(polled) => renews(pre, polled, post, action),
    }
}

/// Whether `filter` number `i` is the first one for `group`.
pub open spec fn is_first_for(filters: Seq<GroupFilter>, group: Seq<u8>, i: int) -> bool {
    &&& filters[i].group_id@ == group
    &&& forall|j: int| 0 <= j < i ==> #[trigger] filters[j].group_id@ != group
}

/// Whether `after` is `before` with the first filter for `group` put to `cursor`.
pub open spec fn refiltered(
    before: Seq<GroupFilter>,
    after: Seq<GroupFilter>,
    group: Seq<u8>,
    cursor: u64,
) -> bool {
    &&& after.len() == before.len()
    &&& forall|i: int|
        0 <= i < before.len() ==> #[trigger] after[i].group_id@ == before[i].group_id@
    &&& forall|i: int|
        0 <= i < before.len() ==> #[trigger] after[i].id_cursor == (if is_first_for(
            before,
            group,
            i,
        ) {
            Some(cursor)
        } else {
            before[i].id_cursor
        })
}

/// Whether `subscription` takes in `group`, with `filters` as they were requested, where the local
/// database holds the messages of the group up to `last_cursor`, zero standing for none.
pub open spec fn subscribes(
    filters: Seq<GroupFilter>,
    group: Seq<u8>,
    last_cursor: i64,
    subscription: Subscription,
) -> bool {
    &&& subscription.group_id@ == group
    &&& if last_cursor == 0 {
        &&& subscription.filters@ == filters
        &&& subscription.cursor == Some(1u64)
    } else {
        &&& subscription.cursor == Some(as_unsigned(last_cursor) as u64)
        &&& refiltered(
            filters,
            subscription.filters@,
            group,
            as_unsigned(last_cursor) as u64,
        )
    }
}

/// The cursor of the last message for `group` in `latest`, zero where there is none.
pub open spec fn latest_cursor<E>(
    latest: Seq<Result<Option<GroupMessage>, E>>,
    group: Seq<u8>,
) -> u64
    decreases latest.len(),
{
    if latest.len() == 0 {
        0
    } else {
        match latest.last() {
            Ok(Some(message)) if message.v1() is Some && message.v1()->0.group_id@
                == group => message.v1()->0.id,
            _ => latest_cursor(latest.drop_last(), group),
        }
    }
}

/// Each group of `groups`, at the latest cursor known of it.
pub open spec fn at_latest<E>(
    groups: Seq<Vec<u8>>,
    latest: Seq<Result<Option<GroupMessage>, E>>,
) -> Map<Seq<u8>, Option<u64>> {
    Map::new(
        |group: Seq<u8>| at_zero(groups).contains_key(group),
        |group: Seq<u8>| Some(latest_cursor(latest, group)),
    )
}

/// Whether a message came that cannot be read.
pub open spec fn is_unreadable<E>(latest: Result<Option<GroupMessage>, E>) -> bool {
    latest matches Ok(Some(message)) && message.v1() is None
}

/// Whether opening a stream over `groups`, with `latest` as the backend's answers, comes out as
/// `stream`: the first failed answer is the error, or else a message that cannot be read is one, or
/// else the stream is waiting, with each group at the latest cursor known of it.
pub open spec fn opens<E>(
    groups: Seq<Vec<u8>>,
    latest: Seq<Result<Option<GroupMessage>, E>>,
    stream: Result<StreamModel, SubscribeError<E>>,
) -> bool {
    match stream {
        Ok(model) => {
            &&& forall|i: int| 0 <= i < latest.len() ==> #[trigger] latest[i] is Ok
            &&& forall|i: int| 0 <= i < latest.len() ==> !is_unreadable(#[trigger] latest[i])
            &&& model == (StreamModel {
                state: State::Waiting,
                positions: at_latest(groups, latest),
                queue: Seq::empty(),
                returned: Seq::empty(),
                got: Seq::empty(),
            })
        },
        Err(SubscribeError::Client(error)) => exists|i: int|
            {
                &&& 0 <= i < latest.len()
                &&& #[trigger] latest[i] == Err::<Option<GroupMessage>, E>(error)
                &&& forall|j: int| 0 <= j < i ==> #[trigger] latest[j] is Ok
            },
        Err(SubscribeError::MessageStream(MessageStreamError::InvalidPayload)) => {
            &&& forall|i: int| 0 <= i < latest.len() ==> #[trigger] latest[i] is Ok
            &&& exists|i: int| 0 <= i < latest.len() && is_unreadable(#[trigger] latest[i])
        },
        Err(_) => false,
    }
}

/// The messages of a set of groups, as a stream.
#[derive(Debug)]
pub struct StreamGroupMessages {
    state: State,
    group_list: GroupList,
    add_queue: VecDeque<Vec<u8>>,
    returned: Vec<u64>,
    got: Vec<u64>,
}

impl View for StreamGroupMessages {
    type V = StreamModel;

    closed spec fn view(&self) -> StreamModel {
        StreamModel {
            state: self.state,
            positions: self.group_list@,
            queue: self.add_queue@.map_values(|group: Vec<u8>| group@),
            returned: self.returned@,
            got: self.got@,
        }
    }
}

impl StreamGroupMessages {
    /// The stream is well formed.
    pub closed spec fn wf(self) -> bool {
        self.group_list.wf()
    }

    /// A stream over `group_list`, which may name a group twice. `latest` holds what the backend
    /// answered when it was asked for the latest message of each group.
    pub fn new<E>(
        group_list: Vec<Vec<u8>>,
        latest: Vec<Result<Option<GroupMessage>, E>>,
    ) -> (stream: Result<StreamGroupMessages, SubscribeError<E>>)
        ensures
            stream matches Ok(stream) ==> stream.wf(),
            opens(
                group_list@,
                latest@,
                match stream {
                    Ok(stream) => Ok(stream@),
                    Err(error) => Err(error),
                },
            ),
    {
        let mut answers = latest;
        let mut i: usize = 0;
        while i < answers.len()
            invariant
                answers@ == latest@,
                0 <= i <= latest@.len(),
                forall|j: int| 0 <= j < i ==> #[trigger] latest@[j] is Ok,
            decreases answers@.len() - i,
        {
            if answers[i].is_err() {
                match answers.swap_remove(i) {
                    Err(error) => {
                        assert(latest@[i as int] == Err::<Option<GroupMessage>, E>(error));
                        return Err(SubscribeError::Client(error));
                    },
                    Ok(_) => {
                        assert(false);
                    },
                }
            }
            i = i + 1;
        }
        let mut list = GroupList::following(group_list);
        assert(list@ =~= at_latest(group_list@, latest@.take(0)));
        let mut i: usize = 0;
        while i < answers.len()
            invariant
                answers@ == latest@,
                0 <= i <= latest@.len(),
                forall|j: int| 0 <= j < latest@.len() ==> #[trigger] latest@[j] is Ok,
                forall|j: int| 0 <= j < i ==> !is_unreadable(#[trigger] latest@[j]),
                list.wf(),
                list@ == at_latest(group_list@, latest@.take(i as int)),
            decreases answers@.len() - i,
        {
            proof {
                assert(latest@.take(i + 1).drop_last() =~= latest@.take(i as int));
                assert(latest@.take(i + 1).last() == latest@[i as int]);
            }
            match &answers[i] {
                Ok(Some(message)) => match &message.version {
                    Some(Version::V1(value)) => {
                        list.set_cursor(value.group_id.as_slice(), value.id);
                    },
                    None => {
                        assert(is_unreadable(latest@[i as int]));
                        return Err(
                            SubscribeError::MessageStream(MessageStreamError::InvalidPayload),
                        );
                    },
                },
                _ => {},
            }
            assert(list@ =~= at_latest(group_list@, latest@.take(i + 1)));
            i = i + 1;
        }
        assert(latest@.take(latest@.len() as int) =~= latest@);
        let stream = StreamGroupMessages {
            state: State::default(),
            group_list: list,
            add_queue: VecDeque::new(),
            returned: Vec::new(),
            got: Vec::new(),
        };
        assert(stream@.queue =~= Seq::empty());
        Ok(stream)
    }

    /// A filter for each group of the stream, from its position on.
    pub fn filters(&self) -> (filters: Vec<GroupFilter>)
        requires
            self.wf(),
        ensures
            lists_filters(filters@, self@.positions),
    {
        self.group_list.filters()
    }

    /// Moves the group to `new_cursor`, if the stream follows it.
    pub fn set_cursor(&mut self, group_id: &[u8], new_cursor: u64)
        requires
            old(self).wf(),
        ensures
            final(self).wf(),
            final(self)@ == old(self)@.moved(group_id@, Some(new_cursor)),
    {
        self.group_list.set_cursor(group_id, new_cursor);
    }

    /// Add a new group to this messages stream. While the stream is waiting, this is resolved
    /// right away, with the request to make; in any other state the group is queued.
    pub fn add(&mut self, group_id: Vec<u8>) -> (request: Option<SubscribeRequest>)
        requires
            old(self).wf(),
        ensures
            final(self).wf(),
            adds(old(self)@, group_id@, final(self)@, request),
    {
        if self.group_list.contains_key(group_id.as_slice()) {
            return None;
        }
        match self.state {
            State::Waiting => Some(self.resolve_group_additions(group_id)),
            _ => {
                self.add_queue.push_back(group_id);
                assert(self@.queue =~= old(self)@.queue.push(group_id@));
                None
            },
        }
    }

    /// Add the group to the group list and transition the stream to Adding state.
    pub fn resolve_group_additions(&mut self, group_id: Vec<u8>) -> (request: SubscribeRequest)
        requires
            old(self).wf(),
        ensures
            final(self).wf(),
            final(self)@ == old(self)@.joining(group_id@),
            requests(request, group_id@, final(self)@.positions),
    {
        self.group_list.insert(copy_bytes(group_id.as_slice()), MessagePosition::from(1u64));
        let filters = self.filters();
        self.state = State::Adding;
        SubscribeRequest { filters, group_id }
    }

    /// The subscription that takes in a new group, of which the local database holds the messages
    /// up to `last_cursor`, zero standing for none.
    pub fn subscribe(
        filters: Vec<GroupFilter>,
        new_group: Vec<u8>,
        last_cursor: i64,
    ) -> (subscription: Subscription)
        ensures
            subscribes(filters@, new_group@, last_cursor, subscription),
    {
        if last_cursor == 0 {
            // there are no messages for the group yet
            return Subscription { filters, group_id: new_group, cursor: Some(1) };
        }
        let cursor: u64 = to_unsigned(last_cursor);
        let ghost before = filters@;
        let mut filters = filters;
        let mut i: usize = 0;
        while i < filters.len()
            invariant_except_break
                filters@ == before,
            invariant
                0 <= i <= filters@.len(),
                cursor == as_unsigned(last_cursor),
                forall|j: int| 0 <= j < i ==> #[trigger] before[j].group_id@ != new_group@,
            ensures
                refiltered(before, filters@, new_group@, cursor),
            decreases filters@.len() - i,
        {
            if same_bytes(filters[i].group_id.as_slice(), new_group.as_slice()) {
                let group_id = copy_bytes(new_group.as_slice());
                filters.set(i, GroupFilter::new(group_id, Some(cursor)));
                break;
            }
            i = i + 1;
        }
        Subscription { filters, group_id: new_group, cursor: Some(cursor) }
    }

    /// What a poll of the subscription means for the stream. A message in a version that this
    /// client does not know how to read is passed over.
    pub fn next_message<E>(&mut self, polled: InnerPoll<E>) -> (next: NextMessage<E>)
        requires
            old(self).wf(),
        ensures
            final(self).wf(),
            match polled {
                InnerPoll::Pending => final(self)@ == old(self)@ && next is Pending,
                InnerPoll::Ended => final(self)@ == old(self)@ && next is Ended,
                InnerPoll::Failed(error) => {
                    &&& final(self)@ == old(self)@
                    &&& next == NextMessage::Failed(SubscribeError::BoxError(error))
                },
                InnerPoll::Message(message) => match message.v1() {
                    Some(msg) => {
                        &&& final(self)@ == old(self)@.received(msg)
                        &&& next == NextMessage::<E>::Message(msg)
                    },
                    None => final(self)@ == old(self)@ && next is Unreadable,
                },
            },
    {
        match polled {
            InnerPoll::Pending => NextMessage::Pending,
            InnerPoll::Ended => NextMessage::Ended,
            InnerPoll::Failed(error) => NextMessage::Failed(SubscribeError::BoxError(error)),
            InnerPoll::Message(message) => match extract_message_v1(message) {
                Some(msg) => {
                    self.got.push(msg.id);
                    NextMessage::Message(msg)
                },
                None => NextMessage::Unreadable,
            },
        }
    }

    /// What to do with the next message while the stream is waiting: one that the stream is past
    /// starts off skipping, any other is processed.
    pub fn on_waiting<E>(&mut self, next: NextMessage<E>) -> (action: Action<E>)
        requires
            old(self).wf(),
            old(self)@.state == State::Waiting,
        ensures
            final(self).wf(),
            match next {
                NextMessage::Unreadable => final(self)@ == old(self)@ && action is PollInner,
                NextMessage::Pending => final(self)@ == old(self)@ && action is Pending,
                NextMessage::Ended => final(self)@ == old(self)@ && action == Action::<E>::Ready(
                    None,
                ),
                NextMessage::Failed(error) => final(self)@ == old(self)@ && action
                    == Action::Ready(Some(Err(error))),
                NextMessage::Message(msg) => if old(self)@.is_past(msg) {
                    final(self)@ == old(self)@ && action == Action::<E>::Skip(msg)
                } else {
                    &&& final(self)@ == old(self)@.entered(State::Processing)
                    &&& action == Action::<E>::Process(msg)
                },
            },
    {
        match next {
            NextMessage::Unreadable => Action::PollInner,
            NextMessage::Pending => Action::Pending,
            NextMessage::Ended => Action::Ready(None),
            NextMessage::Failed(error) => Action::Ready(Some(Err(error))),
            NextMessage::Message(msg) => {
                if self.has_passed(&msg) {
                    Action::Skip(msg)
                } else {
                    self.state = State::Processing;
                    Action::Process(msg)
                }
            },
        }
    }

    /// Whether the stream is past `msg`.
    fn has_passed(&self, msg: &V1) -> (passed: bool)
        requires
            self.wf(),
        ensures
            passed == self@.is_past(*msg),
    {
        match self.group_list.get(msg.group_id.as_slice()) {
            Some(position) => position > MessagePosition::from(msg.id),
            None => false,
        }
    }

    /// Skips messages, after the stream has come upon `envelope`, which it is past, up to the known
    /// cursor: the first message that the stream is not past ends the skipping, and is the one to
    /// go on with.
    pub fn skip<E>(&self, envelope: V1, next: NextMessage<E>) -> (step: SkipStep<E>)
        requires
            self.wf(),
        ensures
            match next {
                NextMessage::Unreadable => step == SkipStep::<E>::Skipping(envelope),
                NextMessage::Pending => step is Pending,
                NextMessage::Ended => step is Ended,
                NextMessage::Failed(error) => step == SkipStep::Failed(error),
                NextMessage::Message(msg) => if self@.is_past(msg) {
                    step == SkipStep::<E>::Skipping(envelope)
                } else {
                    step == SkipStep::<E>::Finished(msg)
                },
            },
    {
        match next {
            NextMessage::Unreadable => SkipStep::Skipping(envelope),
            NextMessage::Pending => SkipStep::Pending,
            NextMessage::Ended => SkipStep::Ended,
            NextMessage::Failed(error) => SkipStep::Failed(error),
            NextMessage::Message(msg) => {
                if self.has_passed(&msg) {
                    SkipStep::Skipping(envelope)
                } else {
                    SkipStep::Finished(msg)
                }
            },
        }
    }

    /// What to do after a step of skipping.
    pub fn on_skip<E>(&mut self, step: SkipStep<E>) -> (action: Action<E>)
        requires
            old(self).wf(),
            old(self)@.state == State::Waiting,
        ensures
            final(self).wf(),
            match step {
                SkipStep::Skipping(envelope) => final(self)@ == old(self)@ && action == Action::<
                    E,
                >::Skip(envelope),
                SkipStep::Pending => final(self)@ == old(self)@ && action is Pending,
                SkipStep::Ended => final(self)@ == old(self)@ && action == Action::<E>::Ready(None),
                SkipStep::Failed(error) => final(self)@ == old(self)@ && action == Action::Ready(
                    Some(Err(error)),
                ),
                SkipStep::Finished(msg) => {
                    &&& final(self)@ == old(self)@.entered(State::Processing)
                    &&& action == Action::<E>::Process(msg)
                },
            },
    {
        match step {
            SkipStep::Skipping(envelope) => Action::Skip(envelope),
            SkipStep::Pending => Action::Pending,
            SkipStep::Ended => Action::Ready(None),
            SkipStep::Failed(error) => Action::Ready(Some(Err(error))),
            SkipStep::Finished(msg) => {
                self.state = State::Processing;
                Action::Process(msg)
            },
        }
    }

    /// Polls the stream.
    pub fn poll_next<E>(&mut self) -> (action: Action<E>)
        requires
            old(self).wf(),
        ensures
            final(self).wf(),
            polls(old(self)@, final(self)@, action),
    {
        match self.state {
            State::Waiting => {
                match self.add_queue.pop_front() {
                    Some(group_id) => {
                        assert(self@.queue =~= old(self)@.queue.skip(1));
                        Action::Subscribe(self.resolve_group_additions(group_id))
                    },
                    None => Action::PollInner,
                }
            },
            State::Processing => Action::PollProcessing,
            State::Adding => Action::PollAdding,
        }
    }

    /// What a poll of the processing future means for the stream.
    pub fn resolve_futures<E>(&mut self, polled: ProcessPoll<E>) -> (action: Action<E>)
        requires
            old(self).wf(),
        ensures
            final(self).wf(),
            resolves(old(self)@, polled, final(self)@, action),
    {
        match self.state {
            State::Processing => {},
            _ => {
                return Action::Pending;
            },
        }
        match polled {
            ProcessPoll::Pending => Action::Pending,
            ProcessPoll::Failed(error) => Action::Ready(Some(Err(error))),
            ProcessPoll::Processed(processed) => {
                self.state = State::Waiting;
                match processed.message {
                    Some(msg) => {
                        self.returned.push(
                            match msg.sequence_id {
                                Some(id) => to_unsigned(id),
                                None => 0,
                            },
                        );
                        if let Some(cursor) = processed.next_message {
                            self.set_cursor(msg.group_id.as_slice(), cursor);
                        }
                        Action::Ready(Some(Ok(msg)))
                    },
                    None => {
                        if let Some(cursor) = processed.next_message {
                            self.set_cursor(processed.group_id.as_slice(), cursor);
                        }
                        self.poll_next()
                    },
                }
            },
        }
    }

    /// What a poll of the future that renews the subscription means for the stream.
    pub fn on_added<E>(&mut self, polled: AddPoll<E>) -> (action: Action<E>)
        requires
            old(self).wf(),
            old(self)@.state == State::Adding,
        ensures
            final(self).wf(),
            renews(old(self)@, polled, final(self)@, action),
    {
        match polled {
            AddPoll::Pending => Action::Pending,
            AddPoll::Failed(error) => Action::Ready(Some(Err(error))),
            AddPoll::Added { group_id, cursor } => {
                if let Some(cursor) = cursor {
                    self.set_cursor(group_id.as_slice(), cursor);
                }
                self.state = State::Waiting;
                self.poll_next()
            },
        }
    }

    /// Moves the stream on by one event.
    pub fn step<E>(&mut self, event: Event<E>) -> (action: Action<E>)
        requires
            old(self).wf(),
            fits(old(self)@.state, event),
        ensures
            final(self).wf(),
            transition(old(self)@, event, final(self)@, action),
    {
        match event {
            Event::Polled => self.poll_next(),
            Event::Inner(polled) => {
                let next = self.next_message(polled);
                self.on_waiting(next)
            },
            Event::Skipped { envelope, polled } => {
                let next = self.next_message(polled);
                let step = self.skip(envelope, next);
                self.on_skip(step)
            },
            Event::Processing(polled) => self.resolve_futures(polled),
            Event::Adding(polled) => self.on_added(polled),
        }
    }

    /// What the stream is busy with.
    pub fn state(&self) -> (state: State)
        ensures
            state == self@.state,
    {
        self.state
    }

    /// The position of a group, if the stream follows it.
    pub fn position(&self, group_id: &[u8]) -> (position: Option<MessagePosition>)
        requires
            self.wf(),
        ensures
            position is Some <==> self@.positions.contains_key(group_id@),
            position matches Some(p) ==> p@ == self@.positions[group_id@],
    {
        self.group_list.get(group_id)
    }

    /// The sequence ids of the messages that the stream handed out.
    pub fn returned(&self) -> (returned: &[u64])
        ensures
            returned@ == self@.returned,
    {
        self.returned.as_slice()
    }

    /// The cursors of the messages that came from the network.
    pub fn got(&self) -> (got: &[u64])
        ensures
            got@ == self@.got,
    {
        self.got.as_slice()
    }
}

} // verus!
