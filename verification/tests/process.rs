use stream_messages::error::{
    GroupMessageProcessingError, MessageStreamError, ProcessIntentError, SubscribeError,
};
use stream_messages::group_message::{StoredGroupMessage, V1};
use stream_messages::process::{Answer, ProcessMessageFuture, ProcessStep, ProcessedMessage};
use stream_messages::summary::{MessageIdentifier, ProcessSummary, SyncSummary};

fn message(id: u64, created_ns: u64) -> V1 {
    V1 {
        id,
        created_ns,
        group_id: vec![8],
        data: vec![1, 2, 3],
        sender_hmac: vec![],
    }
}

fn named(cursor: u64) -> MessageIdentifier {
    MessageIdentifier { cursor, group_id: vec![8], created_ns: 0 }
}

fn stored() -> StoredGroupMessage {
    StoredGroupMessage {
        group_id: vec![8],
        decrypted_message_bytes: b"hi".to_vec(),
        sequence_id: Some(40),
    }
}

fn future(id: u64, created_ns: u64) -> ProcessMessageFuture<()> {
    ProcessMessageFuture::new::<&str>((), message(id, created_ns)).unwrap()
}

fn summary_of(step: ProcessStep<&'static str>) -> SyncSummary {
    match step {
        ProcessStep::Load { summary, group_id, .. } => {
            assert_eq!(group_id, vec![8]);
            summary
        }
        other => panic!("not a load: {:?}", other),
    }
}

fn finished(step: ProcessStep<&'static str>) -> ProcessedMessage {
    match step {
        ProcessStep::Finished(Ok(processed)) => processed,
        other => panic!("not finished: {:?}", other),
    }
}

#[test]
fn starts_with_the_last_cursor() {
    match future(40, 7).process::<&str>(Answer::Start) {
        ProcessStep::LastCursor { group_id } => assert_eq!(group_id, vec![8]),
        other => panic!("{:?}", other),
    }
}

#[test]
fn syncs_only_past_the_last_cursor() {
    let future = future(40, 7);
    assert!(future.needs_to_sync(40, 39));
    assert!(!future.needs_to_sync(40, 40));
    assert!(!future.needs_to_sync(40, 41));
    // a cursor that a signed integer cannot hold counts as negative
    assert!(!future.needs_to_sync(u64::MAX, 0));
    assert!(future.needs_to_sync(u64::MAX, -2));
    assert!(matches!(
        future.process::<&str>(Answer::LastCursor(Ok(39))),
        ProcessStep::Entry
    ));
    let summary = summary_of(future.process(Answer::LastCursor(Ok(40))));
    assert_eq!(summary.process.new_messages.len(), 1);
    assert_eq!(summary.process.new_messages[0].cursor, 40);
    assert_eq!(summary.process.new_messages[0].group_id, vec![8]);
    assert_eq!(summary.process.new_messages[0].created_ns, 7);
}

#[test]
fn database_errors_end_the_processing() {
    let future = future(40, 7);
    assert!(matches!(
        future.process(Answer::LastCursor(Err(SubscribeError::Client("db")))),
        ProcessStep::Finished(Err(SubscribeError::Client("db")))
    ));
    assert!(matches!(
        future.process(Answer::Stored {
            summary: SyncSummary::default(),
            stored: Err(SubscribeError::Client("db")),
        }),
        ProcessStep::Finished(Err(SubscribeError::Client("db")))
    ));
}

#[test]
fn a_processed_message_is_a_sync_of_it() {
    let future = future(40, 7);
    let answers: Vec<Result<MessageIdentifier, SubscribeError<&'static str>>> = vec![
        Ok(named(12)),
        Err(SubscribeError::ReceiveGroup(
            GroupMessageProcessingError::MessageAlreadyProcessed(named(12)),
        )),
        Err(SubscribeError::ReceiveGroup(
            GroupMessageProcessingError::ProcessIntent(
                ProcessIntentError::MessageAlreadyProcessed(named(12)),
            ),
        )),
    ];
    for answer in answers {
        let summary = summary_of(future.process(Answer::Entry(answer)));
        assert_eq!(summary, SyncSummary::single(named(12)));
        let step = future.process(Answer::Stored { summary, stored: Ok(None) });
        assert_eq!(finished(step).next_message, Some(12));
    }
}

#[test]
fn other_failures_of_the_group_call_for_recovery() {
    let future = future(40, u64::MAX);
    let failures = vec![
        GroupMessageProcessingError::Other("mls"),
        GroupMessageProcessingError::ProcessIntent(ProcessIntentError::Other("mls")),
    ];
    for failure in failures {
        match future.process(Answer::Entry(Err(SubscribeError::ReceiveGroup(failure)))) {
            ProcessStep::Recover { group_id, created_ns, error } => {
                assert_eq!(group_id, vec![8]);
                assert_eq!(created_ns, -1);
                assert!(!matches!(
                    error,
                    GroupMessageProcessingError::MessageAlreadyProcessed(_)
                ));
            }
            other => panic!("{:?}", other),
        }
    }
}

#[test]
fn other_errors_count_as_an_empty_sync() {
    let future = future(40, 7);
    let errors = vec![
        SubscribeError::Client("net"),
        SubscribeError::BoxError("net"),
        SubscribeError::MessageStream(MessageStreamError::InvalidPayload),
    ];
    for error in errors {
        let summary = summary_of(future.process(Answer::Entry(Err(error))));
        assert_eq!(summary, SyncSummary::default());
        let step = future.process(Answer::Stored { summary, stored: Ok(None) });
        let processed = finished(step);
        assert_eq!(processed.message, None);
        assert_eq!(processed.next_message, Some(0));
        assert_eq!(processed.tried_to_process, 40);
    }
}

#[test]
fn recovery_keeps_its_summary_either_way() {
    let future = future(40, 7);
    let summary = SyncSummary::single(named(33));
    assert_eq!(
        summary_of(future.process(Answer::Recovery(Ok(summary.clone())))),
        summary
    );
    assert_eq!(
        summary_of(future.process(Answer::Recovery(Err(summary.clone())))),
        summary
    );
}

#[test]
fn a_stored_message_goes_on_at_its_own_cursor() {
    let future = future(40, 7);
    let step = future.process(Answer::Stored {
        summary: SyncSummary::single(named(99)),
        stored: Ok(Some(stored())),
    });
    assert_eq!(
        finished(step),
        ProcessedMessage {
            message: Some(stored()),
            group_id: vec![8],
            next_message: Some(40),
            tried_to_process: 40,
        }
    );
}

#[test]
fn a_missing_message_goes_on_at_the_first_new_one() {
    let future = future(40, 7);
    let summary = SyncSummary {
        process: ProcessSummary {
            new_messages: vec![named(52), named(45), named(47)],
            last: Some(60),
        },
    };
    let step = future.process(Answer::Stored { summary, stored: Ok(None) });
    assert_eq!(
        finished(step),
        ProcessedMessage {
            message: None,
            group_id: vec![8],
            next_message: Some(45),
            tried_to_process: 40,
        }
    );
}

#[test]
fn without_new_messages_it_goes_on_at_the_last_processed() {
    let future = future(40, 7);
    let summary = SyncSummary {
        process: ProcessSummary { new_messages: vec![], last: Some(60) },
    };
    let step = future.process(Answer::Stored { summary, stored: Ok(None) });
    assert_eq!(finished(step).next_message, Some(60));
}

#[test]
fn a_synced_message_that_is_missing_is_passed() {
    let future = future(40, 7);
    let summary = summary_of(future.process(Answer::LastCursor(Ok(40))));
    let step = future.process(Answer::Stored { summary, stored: Ok(None) });
    assert_eq!(finished(step).next_message, Some(40));
}

#[test]
fn processing_with_recovery_comes_to_an_end() {
    let future = future(40, 7);
    let mut step = future.process::<&'static str>(Answer::Start);
    let mut reports = 0;
    while !matches!(step, ProcessStep::Finished(_)) {
        step = future.process(match step {
            ProcessStep::LastCursor { .. } => Answer::LastCursor(Ok(12)),
            ProcessStep::Entry => Answer::Entry(Err(SubscribeError::ReceiveGroup(
                GroupMessageProcessingError::Other("mls"),
            ))),
            ProcessStep::Recover { .. } => Answer::Recovery(Err(SyncSummary::single(named(33)))),
            ProcessStep::Load { summary, .. } => Answer::Stored { summary, stored: Ok(None) },
            ProcessStep::Finished(_) => unreachable!(),
        });
        reports += 1;
    }
    assert_eq!(reports, 4);
    let processed = finished(step);
    assert_eq!(processed.next_message, Some(33));
    assert_eq!(processed.tried_to_process, 40);
    assert_eq!(processed.message, None);
}
