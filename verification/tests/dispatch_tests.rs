use pagewatch::dispatch::{
    collect_outcomes, plan_run, DeliveryReport, RunAction, RunOutcome,
};

#[test]
fn one_failing_channel_never_drops_the_sibling() {
    let reports = vec![
        DeliveryReport::DeliveryFailed("relay refused".to_string()),
        DeliveryReport::Delivered,
    ];
    let outcomes = collect_outcomes(&reports);
    // Both channels ran: exactly one outcome each, in channel order.
    assert_eq!(outcomes.len(), 2);
    let sent = outcomes
        .iter()
        .filter(|o| matches!(o, RunOutcome::Sent))
        .count();
    let failed = outcomes
        .iter()
        .filter(|o| matches!(o, RunOutcome::Failed(_)))
        .count();
    assert_eq!(sent, 1);
    assert_eq!(failed, 1);
    match &outcomes[0] {
        RunOutcome::Failed(reason) => assert_eq!(reason, "relay refused"),
        _ => panic!("expected a failure"),
    }
    assert!(matches!(outcomes[1], RunOutcome::Sent));
}

#[test]
fn dry_run_reports_suppressed_not_sent() {
    let reports = vec![DeliveryReport::Skipped, DeliveryReport::Delivered];
    let outcomes = collect_outcomes(&reports);
    assert_eq!(outcomes.len(), 2);
    assert!(matches!(outcomes[0], RunOutcome::Suppressed));
    assert!(matches!(outcomes[1], RunOutcome::Sent));
}

#[test]
fn empty_match_set_is_the_terminal_noop() {
    assert_eq!(plan_run(0, true), RunAction::NoMatches);
    assert_eq!(plan_run(0, false), RunAction::NoMatches);
}

#[test]
fn refused_throttle_suppresses_every_channel() {
    assert_eq!(plan_run(2, false), RunAction::ThrottledSkip);
}

#[test]
fn matches_and_open_throttle_notify() {
    assert_eq!(plan_run(2, true), RunAction::Notify);
}
