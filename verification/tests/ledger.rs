use statusphere::ledger::{
    DeliveryAttempt, DeliveryLedger, DeliveryOutcome, DeliveryState, LedgerError,
    RESPONSE_BODY_LIMIT,
};

fn ledger_with(n: usize) -> DeliveryLedger {
    let mut ledger = DeliveryLedger::new();
    for i in 0..n {
        let id = ledger.record_attempt((i % 2) as i64 + 1, "evt", "status.created", "{}", 10);
        assert_eq!(id, i);
    }
    ledger
}

#[test]
fn a_new_attempt_is_pending() {
    let mut ledger = DeliveryLedger::new();
    let id = ledger.record_attempt(7, "evt-1", "status.created", "{\"a\":1}", 1700000000);
    assert_eq!(id, 0);
    assert_eq!(ledger.len(), 1);
    let a = ledger.attempt(id).unwrap();
    assert_eq!(a.id, 0);
    assert_eq!(a.subscription_id, 7);
    assert_eq!(a.event_id, "evt-1");
    assert_eq!(a.event_type, "status.created");
    assert_eq!(a.payload, "{\"a\":1}");
    assert_eq!(a.attempted_at, 1700000000);
    assert_eq!(a.response_status, None);
    assert_eq!(a.response_body, None);
    assert!(!a.success);
    assert_eq!(a.retry_count, 0);
    assert_eq!(a.next_retry_at, None);
    assert_eq!(a.state, DeliveryState::Pending);
    assert!(ledger.attempt(1).is_none());
}

#[test]
fn any_2xx_is_delivered() {
    for status in [200u16, 201, 204, 299] {
        let mut ledger = ledger_with(1);
        let outcome = DeliveryOutcome::Response { status, body: Some("ok".into()) };
        assert_eq!(ledger.record_outcome(0, &outcome), Ok(()));
        let a = ledger.attempt(0).unwrap();
        assert_eq!(a.state, DeliveryState::Delivered);
        assert!(a.success);
        assert_eq!(a.response_status, Some(status));
        assert_eq!(a.response_body.as_deref(), Some("ok"));
    }
}

#[test]
fn anything_else_is_failed() {
    for status in [0u16, 100, 199, 300, 301, 404, 500, 65535] {
        let mut ledger = ledger_with(1);
        let outcome = DeliveryOutcome::Response { status, body: None };
        assert_eq!(ledger.record_outcome(0, &outcome), Ok(()));
        let a = ledger.attempt(0).unwrap();
        assert_eq!(a.state, DeliveryState::Failed);
        assert!(!a.success);
        assert_eq!(a.response_status, Some(status));
        assert_eq!(a.response_body, None);
    }
}

#[test]
fn no_answer_is_failed_without_status() {
    let mut ledger = ledger_with(1);
    assert_eq!(ledger.record_outcome(0, &DeliveryOutcome::Unreachable), Ok(()));
    let a = ledger.attempt(0).unwrap();
    assert_eq!(a.state, DeliveryState::Failed);
    assert!(!a.success);
    assert_eq!(a.response_status, None);
    assert_eq!(a.response_body, None);
}

#[test]
fn an_outcome_is_recorded_once() {
    let mut ledger = ledger_with(1);
    let ok = DeliveryOutcome::Response { status: 200, body: None };
    assert_eq!(ledger.record_outcome(0, &DeliveryOutcome::Unreachable), Ok(()));
    assert_eq!(ledger.record_outcome(0, &ok), Err(LedgerError::AlreadySettled));
    assert_eq!(ledger.attempt(0).unwrap().state, DeliveryState::Failed);

    let mut ledger = ledger_with(1);
    assert_eq!(ledger.record_outcome(0, &ok), Ok(()));
    assert_eq!(
        ledger.record_outcome(0, &DeliveryOutcome::Unreachable),
        Err(LedgerError::AlreadySettled)
    );
    assert_eq!(ledger.attempt(0).unwrap().state, DeliveryState::Delivered);
}

#[test]
fn an_unknown_attempt_is_not_found() {
    let mut ledger = ledger_with(2);
    assert_eq!(
        ledger.record_outcome(2, &DeliveryOutcome::Unreachable),
        Err(LedgerError::NotFound)
    );
    assert_eq!(ledger.len(), 2);
}

#[test]
fn one_outcome_touches_one_row() {
    let mut ledger = ledger_with(3);
    ledger.record_outcome(1, &DeliveryOutcome::Unreachable).unwrap();
    assert_eq!(ledger.attempt(0).unwrap().state, DeliveryState::Pending);
    assert_eq!(ledger.attempt(1).unwrap().state, DeliveryState::Failed);
    assert_eq!(ledger.attempt(2).unwrap().state, DeliveryState::Pending);
}

#[test]
fn response_bodies_are_truncated() {
    let mut ledger = ledger_with(2);
    let long: String = "é".repeat(RESPONSE_BODY_LIMIT + 10);
    let exact: String = "x".repeat(RESPONSE_BODY_LIMIT);
    ledger
        .record_outcome(0, &DeliveryOutcome::Response { status: 500, body: Some(long) })
        .unwrap();
    ledger
        .record_outcome(1, &DeliveryOutcome::Response { status: 200, body: Some(exact.clone()) })
        .unwrap();
    let kept = ledger.attempt(0).unwrap().response_body.unwrap();
    assert_eq!(kept.chars().count(), 1024);
    assert_eq!(kept, "é".repeat(1024));
    assert_eq!(ledger.attempt(1).unwrap().response_body.unwrap(), exact);
}

#[test]
fn recent_is_latest_first_and_bounded() {
    let ledger = ledger_with(7);
    // Subscription 1 has attempts 0, 2, 4, 6; subscription 2 has 1, 3, 5.
    let ids = |sub: i64, limit: usize| -> Vec<usize> {
        ledger.recent(sub, limit).iter().map(|a| a.id).collect()
    };
    assert_eq!(ids(1, 20), vec![6, 4, 2, 0]);
    assert_eq!(ids(2, 20), vec![5, 3, 1]);
    assert_eq!(ids(1, 2), vec![6, 4]);
    assert_eq!(ids(2, 3), vec![5, 3, 1]);
    assert_eq!(ids(1, 0), Vec::<usize>::new());
    assert_eq!(ids(9, 20), Vec::<usize>::new());
}

fn rows_of(ledger: &DeliveryLedger) -> Vec<DeliveryAttempt> {
    (0..ledger.len()).map(|i| ledger.attempt(i).unwrap()).collect()
}

#[test]
fn a_ledger_loads_what_a_ledger_held() {
    let mut ledger = ledger_with(3);
    ledger.record_outcome(0, &DeliveryOutcome::Response { status: 200, body: None }).unwrap();
    ledger.record_outcome(1, &DeliveryOutcome::Unreachable).unwrap();
    let mut loaded = DeliveryLedger::load(rows_of(&ledger)).unwrap();
    assert_eq!(loaded.len(), 3);
    assert_eq!(loaded.attempt(0).unwrap().state, DeliveryState::Delivered);
    assert_eq!(loaded.attempt(1).unwrap().state, DeliveryState::Failed);
    assert_eq!(loaded.record_attempt(1, "e", "status.created", "{}", 1), 3);
    assert_eq!(DeliveryLedger::load(Vec::new()).unwrap().len(), 0);
}

#[test]
fn a_ledger_refuses_rows_it_could_not_hold() {
    let good = rows_of(&ledger_with(2));
    let broken = |change: fn(&mut DeliveryAttempt)| {
        let mut rows = good.clone();
        change(&mut rows[1]);
        DeliveryLedger::load(rows).is_none()
    };
    assert!(broken(|a| a.id = 5));
    assert!(broken(|a| a.retry_count = 1));
    assert!(broken(|a| a.next_retry_at = Some(3)));
    assert!(broken(|a| a.success = true));
    assert!(broken(|a| a.response_status = Some(200)));
    assert!(broken(|a| a.response_body = Some("x".into())));
    assert!(broken(|a| a.state = DeliveryState::Delivered));
    assert!(broken(|a| {
        a.state = DeliveryState::Delivered;
        a.success = true;
        a.response_status = Some(404);
    }));
    assert!(broken(|a| {
        a.state = DeliveryState::Failed;
        a.success = true;
    }));
    assert!(!broken(|a| {
        a.state = DeliveryState::Failed;
        a.response_status = Some(200);
    }));
    assert!(!broken(|a| a.subscription_id = -4));
}

#[test]
fn states_have_names() {
    for state in [DeliveryState::Pending, DeliveryState::Delivered, DeliveryState::Failed] {
        assert_eq!(DeliveryState::from_name(state.name()), Some(state));
    }
    assert_eq!(DeliveryState::Pending.name(), "pending");
    assert_eq!(DeliveryState::Delivered.name(), "delivered");
    assert_eq!(DeliveryState::Failed.name(), "failed");
    assert_eq!(DeliveryState::from_name("Pending"), None);
    assert_eq!(DeliveryState::from_name(""), None);
}
