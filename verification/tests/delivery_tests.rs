use helldivers2_cn_helper::delivery::{
    delivery_error, DeliveryAction, DeliveryEvent, DeliveryFailure, TextDelivery,
};
use helldivers2_cn_helper::injector::{empty_report, InjectionError};

/// One step: each pair is a `SendInput` call (events asked for, taken).
fn step(delivery: &mut TextDelivery, sends: &[(u32, u32)]) -> DeliveryEvent {
    for (requested, inserted) in sends {
        delivery.record_send(*requested, *inserted, 5);
    }
    delivery.finish_step()
}

#[test]
fn a_full_delivery_walks_keys_batches_and_enter() {
    let mut d = TextDelivery::new(1, vec![2, 1], true, 3, 8);
    let mut actions = vec![d.next_action()];
    let steps: [&[(u32, u32)]; 7] =
        [&[(1, 1), (1, 1)], &[], &[(2, 2)], &[(2, 2)], &[], &[(2, 2)], &[(2, 2)]];
    for sends in steps {
        assert_eq!(step(&mut d, sends), DeliveryEvent::Sent);
        actions.push(d.next_action());
    }
    assert_eq!(
        actions,
        vec![
            DeliveryAction::PressChatKey(0),
            DeliveryAction::BeginBatch(0),
            DeliveryAction::TypeCharacter { batch: 0, character: 0 },
            DeliveryAction::TypeCharacter { batch: 0, character: 1 },
            DeliveryAction::BeginBatch(1),
            DeliveryAction::TypeCharacter { batch: 1, character: 0 },
            DeliveryAction::PressEnter,
            DeliveryAction::Done,
        ]
    );
    let report = d.finish().unwrap();
    assert_eq!(report.attempted_batches, 2);
    assert_eq!((report.requested_events, report.successful_events), (10, 10));
    assert_eq!((report.text_requested_events, report.text_successful_events), (6, 6));
    assert_eq!((report.input_characters, report.input_delay_ms), (3, 8));
    assert!(report.submit_attempted && report.submit_completed);
    assert!(!report.partial_prefix_possible);
    assert_eq!(report.failed_batch_index, None);
}

#[test]
fn fill_only_skips_enter() {
    let mut d = TextDelivery::new(0, vec![1], false, 1, 0);
    assert_eq!(d.next_action(), DeliveryAction::BeginBatch(0));
    step(&mut d, &[]);
    assert_eq!(d.next_action(), DeliveryAction::TypeCharacter { batch: 0, character: 0 });
    step(&mut d, &[(2, 2)]);
    assert_eq!(d.next_action(), DeliveryAction::Done);
    let report = d.finish().unwrap();
    assert!(!report.submit_attempted && !report.submit_completed);
}

#[test]
fn a_refused_character_never_reaches_enter() {
    let mut d = TextDelivery::new(0, vec![2], true, 2, 0);
    step(&mut d, &[]);
    // No event of the character was taken: the step is not sent.
    assert_eq!(
        step(&mut d, &[(2, 0)]),
        DeliveryEvent::SendIncomplete { inserted: 0, release_retried_ok: false }
    );
    assert_eq!(d.next_action(), DeliveryAction::Stopped(DeliveryFailure::SendInputFailed));
    match d.finish() {
        Err(InjectionError::SendInputFailed(report)) => {
            assert!(!report.submit_attempted && !report.submit_completed);
            assert_eq!(report.failed_batch_index, Some(0));
            assert!(!report.partial_prefix_possible);
            assert_eq!(report.last_error_code, Some(5));
        }
        other => panic!("unexpected {other:?}"),
    }
}

#[test]
fn each_stage_names_its_failure() {
    let mut opening = TextDelivery::new(1, vec![1], true, 1, 0);
    step(&mut opening, &[(1, 0)]);
    assert_eq!(opening.next_action(), DeliveryAction::Stopped(DeliveryFailure::OpenChatFailed));

    let mut lost = TextDelivery::new(1, vec![1], true, 1, 0);
    step(&mut lost, &[(1, 1), (1, 1)]);
    lost.lose_foreground();
    assert_eq!(lost.next_action(), DeliveryAction::Stopped(DeliveryFailure::TargetChanged));

    let mut submit = TextDelivery::new(0, vec![1], true, 1, 0);
    step(&mut submit, &[]);
    step(&mut submit, &[(2, 2)]);
    assert_eq!(submit.next_action(), DeliveryAction::PressEnter);
    step(&mut submit, &[(2, 0)]);
    assert_eq!(submit.next_action(), DeliveryAction::Stopped(DeliveryFailure::SubmitFailed));
}

#[test]
fn an_empty_text_goes_straight_to_enter() {
    assert_eq!(TextDelivery::new(0, Vec::new(), true, 0, 0).next_action(), DeliveryAction::PressEnter);
    assert_eq!(TextDelivery::new(0, Vec::new(), false, 0, 0).next_action(), DeliveryAction::Done);
}

#[test]
fn failures_become_injection_errors_with_the_report() {
    let report = empty_report("SendInput", 1, 8);
    assert_eq!(
        delivery_error(DeliveryFailure::SubmitFailed, report.clone()),
        InjectionError::SubmitFailed(report.clone())
    );
    assert_eq!(
        delivery_error(DeliveryFailure::TargetChanged, report.clone()),
        InjectionError::TargetChanged(report)
    );
}

#[test]
fn the_delivery_keeps_its_report() {
    let d = TextDelivery::new(1, vec![1, 1], true, 2, 8);
    let report = d.report();
    assert_eq!(report.delivery_transport, "SendInput");
    assert_eq!(report.attempted_batches, 0);
    assert!(report.delivery_acknowledged);
    assert_eq!(d.step(), (0, 0, None));
}

#[test]
fn focus_lost_after_the_chat_key_may_leave_a_prefix() {
    let mut d = TextDelivery::new(1, vec![1], true, 1, 0);
    step(&mut d, &[(1, 1), (1, 1)]);
    d.lose_foreground();
    match d.finish() {
        Err(InjectionError::TargetChanged(report)) => {
            assert_eq!(report.failed_batch_index, Some(0));
            assert_eq!(report.attempted_batches, 0);
            assert!(report.partial_prefix_possible);
        }
        other => panic!("unexpected {other:?}"),
    }
}

#[test]
fn nothing_sent_means_no_prefix() {
    let mut d = TextDelivery::new(0, vec![1], true, 1, 0);
    d.lose_foreground();
    match d.finish() {
        Err(InjectionError::TargetChanged(report)) => {
            assert_eq!(report.failed_batch_index, Some(0));
            assert!(!report.partial_prefix_possible);
        }
        other => panic!("unexpected {other:?}"),
    }
}

#[test]
fn a_half_sent_character_leaves_a_key_down_unless_released() {
    let mut d = TextDelivery::new(0, vec![2], true, 2, 0);
    step(&mut d, &[]);
    d.record_send(2, 1, 5);
    d.record_release_retry(0, 5);
    assert_eq!(d.step(), (2, 1, Some(false)));
    assert_eq!(
        d.finish_step(),
        DeliveryEvent::SendIncomplete { inserted: 1, release_retried_ok: false }
    );
    match d.finish() {
        Err(InjectionError::SendInputFailed(report)) => {
            assert_eq!(report.failed_batch_index, Some(0));
            assert!(report.partial_prefix_possible);
            assert!(report.key_state_uncertain);
            assert!(!report.delivery_acknowledged);
            assert_eq!(report.requested_events, 3);
        }
        other => panic!("unexpected {other:?}"),
    }

    let mut released = TextDelivery::new(0, vec![2], true, 2, 0);
    step(&mut released, &[]);
    released.record_send(2, 1, 5);
    released.record_release_retry(1, 0);
    released.finish_step();
    match released.finish() {
        Err(InjectionError::SendInputFailed(report)) => assert!(!report.key_state_uncertain),
        other => panic!("unexpected {other:?}"),
    }
}

#[test]
fn a_refused_enter_is_attempted_but_not_completed() {
    let mut d = TextDelivery::new(0, vec![1], true, 1, 0);
    step(&mut d, &[]);
    step(&mut d, &[(2, 2)]);
    step(&mut d, &[(2, 0)]);
    match d.finish() {
        Err(InjectionError::SubmitFailed(report)) => {
            assert!(report.submit_attempted);
            assert!(!report.submit_completed);
            assert!(report.partial_prefix_possible);
            assert!(!report.key_state_uncertain);
            assert_eq!(report.failed_batch_index, None);
            assert_eq!(report.text_requested_events, report.text_successful_events);
        }
        other => panic!("unexpected {other:?}"),
    }
}
