use wasm_build_runtime::helper::{
    helper_step, join_step, AcquireOutcome, HelperAction, HelperPhase, HelperState, JoinAction,
    JOIN_ATTEMPTS,
};

#[test]
fn helper_phases_in_order() {
    let mut s = HelperState::new();
    assert_eq!(s.current(), HelperPhase::Running);
    assert!(!s.producer_done());
    s.finish_producing();
    assert!(s.producer_done());
    assert!(!s.consumer_done());
    s.finish_consuming();
    assert!(s.consumer_done());
    s.mark_joined();
    assert_eq!(s.current(), HelperPhase::Joined);
}

#[test]
fn helper_loop_decisions() {
    assert_eq!(helper_step(AcquireOutcome::Token, false), HelperAction::DeliverToken);
    assert_eq!(helper_step(AcquireOutcome::Token, true), HelperAction::DeliverToken);
    assert_eq!(helper_step(AcquireOutcome::Failed, true), HelperAction::DeliverError);
    assert_eq!(helper_step(AcquireOutcome::Interrupted, false), HelperAction::Retry);
    assert_eq!(helper_step(AcquireOutcome::Interrupted, true), HelperAction::Stop);
}

#[test]
fn join_waits_a_bounded_time() {
    assert_eq!(JOIN_ATTEMPTS, 100);
    assert_eq!(join_step(true, 0), JoinAction::Join);
    assert_eq!(join_step(false, 0), JoinAction::Wait);
    assert_eq!(join_step(false, 99), JoinAction::Wait);
    assert_eq!(join_step(false, 100), JoinAction::Abandon);
    assert_eq!(join_step(true, 100), JoinAction::Join);
}
