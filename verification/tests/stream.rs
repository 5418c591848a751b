use stream_messages::error::{MessageStreamError, SubscribeError};
use stream_messages::group_list::GroupFilter;
use stream_messages::group_message::{
    extract_message_cursor, extract_message_v1, GroupMessage, StoredGroupMessage, Version, V1,
};
use stream_messages::process::{Answer, ProcessMessageFuture, ProcessStep, ProcessedMessage};
use stream_messages::stream::{
    Action, AddPoll, Event, InnerPoll, ProcessPoll, State, StreamGroupMessages,
};

type Latest = Result<Option<GroupMessage>, &'static str>;

fn group(n: u8) -> Vec<u8> {
    vec![n; 3]
}

fn v1(id: u64, n: u8) -> V1 {
    V1 {
        id,
        created_ns: 1000 + id,
        group_id: group(n),
        data: vec![n],
        sender_hmac: vec![],
    }
}

fn sent(id: u64, n: u8) -> GroupMessage {
    GroupMessage { version: Some(Version::V1(v1(id, n))) }
}

fn unreadable() -> GroupMessage {
    GroupMessage { version: None }
}

fn stored(n: u8, sequence_id: Option<i64>, text: &str) -> StoredGroupMessage {
    StoredGroupMessage {
        group_id: group(n),
        decrypted_message_bytes: text.as_bytes().to_vec(),
        sequence_id,
    }
}

fn filter(n: u8, cursor: u64) -> GroupFilter {
    GroupFilter::new(group(n), Some(cursor))
}

fn sorted(mut filters: Vec<GroupFilter>) -> Vec<GroupFilter> {
    filters.sort_by(|a, b| a.group_id.cmp(&b.group_id));
    filters
}

fn stream(groups: Vec<u8>, latest: Vec<Latest>) -> StreamGroupMessages {
    StreamGroupMessages::new(groups.into_iter().map(group).collect(), latest).unwrap()
}

fn at(stream: &StreamGroupMessages, n: u8) -> Option<u64> {
    stream.position(&group(n)).map(|position| position.pos())
}

fn inner(message: GroupMessage) -> Event<&'static str> {
    Event::Inner(InnerPoll::Message(message))
}

fn skipped(envelope: V1, message: GroupMessage) -> Event<&'static str> {
    Event::Skipped { envelope, polled: InnerPoll::Message(message) }
}

fn processed(
    message: Option<StoredGroupMessage>,
    n: u8,
    next_message: Option<u64>,
) -> Event<&'static str> {
    Event::Processing(ProcessPoll::Processed(ProcessedMessage {
        message,
        group_id: group(n),
        next_message,
        tried_to_process: 0,
    }))
}

#[test]
fn content_of_readable_messages() {
    assert_eq!(extract_message_v1(sent(4, 1)), Some(v1(4, 1)));
    assert_eq!(extract_message_v1(unreadable()), None);
    assert_eq!(extract_message_cursor(&sent(4, 1)), Some(4));
    assert_eq!(extract_message_cursor(&unreadable()), None);
}

#[test]
fn starts_at_the_latest_messages() {
    let stream = stream(
        vec![1, 2, 1],
        vec![Ok(Some(sent(11, 1))), Ok(None), Ok(Some(sent(5, 9)))],
    );
    assert_eq!(stream.state(), State::Waiting);
    assert_eq!(at(&stream, 1), Some(11));
    assert_eq!(at(&stream, 2), Some(0));
    assert_eq!(at(&stream, 9), None);
    assert_eq!(sorted(stream.filters()), vec![filter(1, 11), filter(2, 0)]);
    assert!(stream.got().is_empty());
    assert!(stream.returned().is_empty());
}

#[test]
fn the_last_answer_for_a_group_counts() {
    let stream = stream(vec![1], vec![Ok(Some(sent(11, 1))), Ok(Some(sent(7, 1)))]);
    assert_eq!(at(&stream, 1), Some(7));
}

#[test]
fn the_first_failed_query_is_the_error() {
    let latest: Vec<Latest> = vec![Ok(Some(unreadable())), Err("one"), Err("two")];
    assert!(matches!(
        StreamGroupMessages::new(vec![group(1)], latest),
        Err(SubscribeError::Client("one"))
    ));
}

#[test]
fn an_unreadable_latest_message_is_an_error() {
    let latest: Vec<Latest> = vec![Ok(Some(sent(3, 1))), Ok(Some(unreadable()))];
    assert!(matches!(
        StreamGroupMessages::new(vec![group(1)], latest),
        Err(SubscribeError::MessageStream(MessageStreamError::InvalidPayload))
    ));
}

#[test]
fn a_new_group_is_added_at_once_while_waiting() {
    let mut stream = stream(vec![1], vec![Ok(Some(sent(11, 1)))]);
    let request = stream.add(group(2)).unwrap();
    assert_eq!(request.group_id, group(2));
    assert_eq!(sorted(request.filters), vec![filter(1, 11), filter(2, 1)]);
    assert_eq!(stream.state(), State::Adding);
    assert_eq!(at(&stream, 2), Some(1));
    // a second time does nothing
    assert_eq!(stream.add(group(2)), None);
    assert_eq!(stream.add(group(1)), None);
    assert!(matches!(
        stream.step::<&str>(Event::Polled),
        Action::PollAdding
    ));
}

#[test]
fn groups_are_queued_while_busy() {
    let mut stream = stream(vec![1], vec![]);
    assert!(stream.add(group(2)).is_some());
    assert_eq!(stream.add(group(3)), None);
    assert_eq!(stream.add(group(4)), None);
    assert_eq!(at(&stream, 3), None);
    let action = stream.step::<&str>(Event::Adding(AddPoll::Added {
        group_id: group(2),
        cursor: Some(70),
    }));
    match action {
        Action::Subscribe(request) => {
            assert_eq!(request.group_id, group(3));
            assert_eq!(
                sorted(request.filters),
                vec![filter(1, 0), filter(2, 70), filter(3, 1)]
            );
        }
        other => panic!("{:?}", other),
    }
    let action = stream.step::<&str>(Event::Adding(AddPoll::Added {
        group_id: group(3),
        cursor: None,
    }));
    assert!(matches!(action, Action::Subscribe(request) if request.group_id == group(4)));
    assert_eq!(at(&stream, 3), Some(1));
    let action = stream.step::<&str>(Event::Adding(AddPoll::Added {
        group_id: group(4),
        cursor: Some(2),
    }));
    assert!(matches!(action, Action::PollInner));
    assert_eq!(stream.state(), State::Waiting);
    assert_eq!(at(&stream, 4), Some(2));
    // the groups that were there before are still followed, where they were
    assert_eq!(at(&stream, 1), Some(0));
    assert_eq!(at(&stream, 2), Some(70));
}

#[test]
fn a_pending_or_failed_addition_stays_under_way() {
    let mut stream = stream(vec![], vec![]);
    assert!(stream.add(group(2)).is_some());
    assert!(matches!(
        stream.step::<&str>(Event::Adding(AddPoll::Pending)),
        Action::Pending
    ));
    assert_eq!(stream.state(), State::Adding);
    assert!(matches!(
        stream.step(Event::Adding(AddPoll::Failed(SubscribeError::Client("net")))),
        Action::Ready(Some(Err(SubscribeError::Client("net"))))
    ));
    assert_eq!(stream.state(), State::Adding);
}

#[test]
fn a_group_without_messages_is_subscribed_from_one() {
    let filters = vec![filter(1, 11), filter(2, 1)];
    let subscription = StreamGroupMessages::subscribe(filters.clone(), group(2), 0);
    assert_eq!(subscription.filters, filters);
    assert_eq!(subscription.group_id, group(2));
    assert_eq!(subscription.cursor, Some(1));
}

#[test]
fn a_group_with_messages_is_subscribed_from_its_cursor() {
    let filters = vec![filter(1, 11), filter(2, 1), filter(2, 5)];
    let subscription = StreamGroupMessages::subscribe(filters, group(2), 30);
    assert_eq!(
        subscription.filters,
        vec![filter(1, 11), filter(2, 30), filter(2, 5)]
    );
    assert_eq!(subscription.cursor, Some(30));
    let subscription = StreamGroupMessages::subscribe(vec![filter(1, 11)], group(2), -1);
    assert_eq!(subscription.filters, vec![filter(1, 11)]);
    assert_eq!(subscription.cursor, Some(u64::MAX));
}

#[test]
fn a_renewed_subscription_asks_for_the_positions() {
    let mut stream = stream(vec![1], vec![Ok(Some(sent(11, 1)))]);
    let request = stream.add(group(2)).unwrap();
    let subscription = StreamGroupMessages::subscribe(request.filters, request.group_id, 30);
    let asked = sorted(subscription.filters);
    stream.step::<&str>(Event::Adding(AddPoll::Added {
        group_id: subscription.group_id,
        cursor: subscription.cursor,
    }));
    assert_eq!(asked, vec![filter(1, 11), filter(2, 30)]);
    assert_eq!(sorted(stream.filters()), asked);
}

#[test]
fn polls_of_the_subscription_without_a_message() {
    let mut stream = stream(vec![1], vec![]);
    assert!(matches!(stream.step::<&str>(Event::Polled), Action::PollInner));
    assert!(matches!(
        stream.step::<&str>(Event::Inner(InnerPoll::Pending)),
        Action::Pending
    ));
    assert!(matches!(
        stream.step::<&str>(Event::Inner(InnerPoll::Ended)),
        Action::Ready(None)
    ));
    assert!(matches!(
        stream.step(Event::Inner(InnerPoll::Failed("net"))),
        Action::Ready(Some(Err(SubscribeError::BoxError("net"))))
    ));
    assert!(matches!(stream.step(inner(unreadable())), Action::PollInner));
    assert_eq!(stream.state(), State::Waiting);
    assert!(stream.got().is_empty());
}

#[test]
fn messages_from_the_position_on_are_processed() {
    for id in [10, 11] {
        let mut stream = stream(vec![1], vec![Ok(Some(sent(10, 1)))]);
        assert!(matches!(stream.step(inner(sent(id, 1))), Action::Process(m) if m == v1(id, 1)));
        assert_eq!(stream.state(), State::Processing);
        assert_eq!(stream.got(), &[id]);
        assert!(matches!(
            stream.step::<&str>(Event::Polled),
            Action::PollProcessing
        ));
    }
}

#[test]
fn messages_of_other_groups_are_processed() {
    let mut stream = stream(vec![1], vec![Ok(Some(sent(10, 1)))]);
    assert!(matches!(stream.step(inner(sent(2, 7))), Action::Process(m) if m == v1(2, 7)));
}

#[test]
fn skipping_goes_on_to_a_message_of_another_group() {
    let mut stream = stream(vec![1, 2], vec![Ok(Some(sent(10, 1))), Ok(Some(sent(5, 2)))]);
    assert!(matches!(stream.step(inner(sent(9, 1))), Action::Skip(m) if m == v1(9, 1)));
    assert_eq!(stream.state(), State::Waiting);
    for message in [sent(3, 1), sent(4, 2), unreadable(), sent(9, 1)] {
        assert!(matches!(
            stream.step(skipped(v1(9, 1), message)),
            Action::Skip(m) if m == v1(9, 1)
        ));
        assert_eq!(stream.state(), State::Waiting);
    }
    assert!(matches!(
        stream.step(skipped(v1(9, 1), sent(1, 7))),
        Action::Process(m) if m == v1(1, 7)
    ));
    assert_eq!(stream.state(), State::Processing);
    assert_eq!(stream.got(), &[9, 3, 4, 9, 1]);
    assert_eq!(at(&stream, 1), Some(10));
    assert_eq!(at(&stream, 2), Some(5));
    assert_eq!(at(&stream, 7), None);
}

#[test]
fn skipping_goes_up_to_the_known_cursor() {
    for (id, n) in [(5, 1), (6, 1), (0, 2)] {
        let mut stream = stream(vec![1, 2], vec![Ok(Some(sent(5, 1)))]);
        assert!(matches!(stream.step(inner(sent(2, 1))), Action::Skip(_)));
        assert!(matches!(
            stream.step(skipped(v1(2, 1), sent(3, 1))),
            Action::Skip(m) if m == v1(2, 1)
        ));
        assert!(matches!(
            stream.step(skipped(v1(2, 1), sent(id, n))),
            Action::Process(m) if m == v1(id, n)
        ));
        assert_eq!(stream.state(), State::Processing);
        assert_eq!(stream.got(), &[2, 3, id]);
    }
}

#[test]
fn the_end_of_the_subscription_ends_the_skipping() {
    let mut stream = stream(vec![1], vec![Ok(Some(sent(10, 1)))]);
    assert!(matches!(stream.step(inner(sent(9, 1))), Action::Skip(_)));
    assert!(matches!(
        stream.step::<&str>(Event::Skipped { envelope: v1(9, 1), polled: InnerPoll::Ended }),
        Action::Ready(None)
    ));
    assert_eq!(stream.state(), State::Waiting);
    assert_eq!(at(&stream, 1), Some(10));
}

#[test]
fn skipping_gives_up_when_pending_or_failed() {
    let mut stream = stream(vec![1], vec![Ok(Some(sent(10, 1)))]);
    assert!(matches!(
        stream.step::<&str>(Event::Skipped { envelope: v1(9, 1), polled: InnerPoll::Pending }),
        Action::Pending
    ));
    assert!(matches!(
        stream.step(Event::Skipped { envelope: v1(9, 1), polled: InnerPoll::Failed("net") }),
        Action::Ready(Some(Err(SubscribeError::BoxError("net"))))
    ));
    assert_eq!(stream.state(), State::Waiting);
    assert!(matches!(stream.step::<&str>(Event::Polled), Action::PollInner));
}

#[test]
fn a_processed_message_is_handed_out() {
    let mut stream = stream(vec![1], vec![]);
    stream.step(inner(sent(6, 1)));
    let message = stored(1, Some(6), "hello");
    assert!(matches!(
        stream.step(processed(Some(message.clone()), 1, Some(6))),
        Action::Ready(Some(Ok(m))) if m == message
    ));
    assert_eq!(stream.state(), State::Waiting);
    assert_eq!(stream.returned(), &[6]);
    assert_eq!(at(&stream, 1), Some(6));
    // what comes before is skipped from now on, the message itself is not
    assert!(matches!(stream.step(inner(sent(5, 1))), Action::Skip(_)));
    assert!(matches!(stream.step(inner(sent(6, 1))), Action::Process(_)));
}

#[test]
fn sequence_ids_are_kept_unsigned() {
    let mut stream = stream(vec![1], vec![]);
    for (sequence_id, n) in [(Some(-1), 1), (None, 1), (Some(3), 7)] {
        stream.step(inner(sent(6, 1)));
        stream.step(processed(Some(stored(n, sequence_id, "x")), 1, None));
    }
    assert_eq!(stream.returned(), &[u64::MAX, 0, 3]);
    assert_eq!(at(&stream, 1), Some(0));
}

#[test]
fn without_a_message_the_stream_is_polled_anew() {
    let mut stream = stream(vec![1], vec![]);
    stream.step(inner(sent(6, 1)));
    assert!(matches!(
        stream.step(processed(None, 1, Some(44))),
        Action::PollInner
    ));
    assert_eq!(at(&stream, 1), Some(44));
    assert!(stream.returned().is_empty());

    stream.step(inner(sent(50, 1)));
    assert_eq!(stream.add(group(2)), None);
    assert!(matches!(
        stream.step(processed(None, 1, None)),
        Action::Subscribe(request) if request.group_id == group(2)
    ));
    assert_eq!(at(&stream, 1), Some(44));
    assert_eq!(stream.state(), State::Adding);
}

#[test]
fn a_pending_or_failed_processing_stays_under_way() {
    let mut stream = stream(vec![1], vec![]);
    // nothing is processed yet
    assert!(matches!(
        stream.step(processed(Some(stored(1, Some(6), "x")), 1, Some(6))),
        Action::Pending
    ));
    assert!(stream.returned().is_empty());
    stream.step(inner(sent(6, 1)));
    assert!(matches!(
        stream.step::<&str>(Event::Processing(ProcessPoll::Pending)),
        Action::Pending
    ));
    assert!(matches!(
        stream.step(Event::Processing(ProcessPoll::Failed(SubscribeError::Client("db")))),
        Action::Ready(Some(Err(SubscribeError::Client("db"))))
    ));
    assert_eq!(stream.state(), State::Processing);
}

#[test]
fn set_cursor_moves_followed_groups_only() {
    let mut stream = stream(vec![1], vec![]);
    stream.set_cursor(&group(1), 8);
    stream.set_cursor(&group(2), 8);
    assert_eq!(at(&stream, 1), Some(8));
    assert_eq!(at(&stream, 2), None);
}

/// Lets `stream` take a message from the network, which the database then holds as `text`.
fn receive(stream: &mut StreamGroupMessages, id: u64, n: u8, text: &str) -> StoredGroupMessage {
    assert!(matches!(stream.step::<&str>(Event::Polled), Action::PollInner));
    let envelope = match stream.step(inner(sent(id, n))) {
        Action::Process(envelope) => envelope,
        other => panic!("{:?}", other),
    };
    let future = ProcessMessageFuture::new::<&str>((), envelope).unwrap();
    let mut step = future.process::<&str>(Answer::Start);
    loop {
        step = match step {
            ProcessStep::LastCursor { .. } => future.process(Answer::LastCursor(Ok(id as i64))),
            ProcessStep::Load { created_ns, summary, .. } => {
                assert_eq!(created_ns, 1000 + id as i64);
                let message = stored(n, Some(id as i64), text);
                future.process(Answer::Stored { summary, stored: Ok(Some(message)) })
            }
            ProcessStep::Finished(Ok(processed)) => {
                let event = Event::Processing(ProcessPoll::Processed(processed));
                match stream.step::<&str>(event) {
                    Action::Ready(Some(Ok(message))) => return message,
                    other => panic!("{:?}", other),
                }
            }
            other => panic!("{:?}", other),
        }
    }
}

#[test]
fn test_stream_messages() {
    let mut stream = stream(vec![1], vec![Ok(Some(sent(10, 1)))]);
    let message = receive(&mut stream, 11, 1, "hello");
    assert_eq!(message.decrypted_message_bytes, "hello".as_bytes());
    let message = receive(&mut stream, 12, 1, "hello2");
    assert_eq!(message.decrypted_message_bytes, "hello2".as_bytes());
    assert_eq!(stream.returned(), &[11, 12]);
    assert_eq!(at(&stream, 1), Some(12));
}

#[test]
fn a_stream_goes_back_to_zero_when_nothing_was_processed() {
    let mut stream = stream(vec![1], vec![Ok(Some(sent(10, 1)))]);
    let envelope = match stream.step(inner(sent(12, 1))) {
        Action::Process(envelope) => envelope,
        other => panic!("{:?}", other),
    };
    let future = ProcessMessageFuture::new::<&str>((), envelope).unwrap();
    let summary = match future.process(Answer::Entry(Err(SubscribeError::Client("net")))) {
        ProcessStep::Load { summary, .. } => summary,
        other => panic!("{:?}", other),
    };
    let processed = match future.process(Answer::<&str>::Stored { summary, stored: Ok(None) }) {
        ProcessStep::Finished(Ok(processed)) => processed,
        other => panic!("{:?}", other),
    };
    let action = stream.step::<&str>(Event::Processing(ProcessPoll::Processed(processed)));
    assert!(matches!(action, Action::PollInner));
    assert_eq!(at(&stream, 1), Some(0));
    assert!(stream.returned().is_empty());
}

#[test]
fn polls_add_no_groups_but_queued_ones() {
    let mut stream = stream(vec![1], vec![]);
    // neither a message of another group nor what processing says of one adds it
    stream.step(inner(sent(4, 7)));
    assert_eq!(stream.add(group(2)), None);
    let action = stream.step(processed(Some(stored(7, Some(4), "x")), 7, Some(4)));
    assert!(matches!(action, Action::Ready(Some(Ok(_)))));
    assert_eq!(sorted(stream.filters()), vec![filter(1, 0)]);
    assert!(matches!(
        stream.step::<&str>(Event::Polled),
        Action::Subscribe(request) if request.group_id == group(2)
    ));
    assert_eq!(sorted(stream.filters()), vec![filter(1, 0), filter(2, 1)]);
}
