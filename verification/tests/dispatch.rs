use longport::dispatch::{run_request, AttemptOutcome, RetryState, RetryStep, RETRY_COUNT};
use longport::error::Error;

#[test]
fn all_cancelled_retries_to_ceiling_then_times_out() {
    let outcomes = vec![
        AttemptOutcome::Cancelled,
        AttemptOutcome::Cancelled,
        AttemptOutcome::Cancelled,
    ];
    let (res, attempts) = run_request(outcomes, RETRY_COUNT);
    assert_eq!(res, Err(Error::RequestTimeout));
    assert_eq!(attempts, RETRY_COUNT);
}

#[test]
fn first_success_never_retries() {
    let outcomes = vec![
        AttemptOutcome::Success(vec![1, 2, 3]),
        AttemptOutcome::Cancelled,
        AttemptOutcome::Cancelled,
    ];
    let (res, attempts) = run_request(outcomes, RETRY_COUNT);
    assert_eq!(res, Ok(vec![1, 2, 3]));
    assert_eq!(attempts, 1);
}

#[test]
fn success_after_one_cancellation() {
    let outcomes = vec![
        AttemptOutcome::Cancelled,
        AttemptOutcome::Success(vec![9]),
        AttemptOutcome::Cancelled,
    ];
    let (res, attempts) = run_request(outcomes, RETRY_COUNT);
    assert_eq!(res, Ok(vec![9]));
    assert_eq!(attempts, 2);
}

#[test]
fn plain_failure_surfaces_immediately_without_retry() {
    let outcomes = vec![
        AttemptOutcome::Failed(Error::RemoteProtocol { code: 429 }),
        AttemptOutcome::Cancelled,
        AttemptOutcome::Cancelled,
    ];
    let (res, attempts) = run_request(outcomes, RETRY_COUNT);
    assert_eq!(res, Err(Error::RemoteProtocol { code: 429 }));
    assert_eq!(attempts, 1);
}

#[test]
fn transport_closed_is_terminal() {
    let outcomes = vec![
        AttemptOutcome::Cancelled,
        AttemptOutcome::Failed(Error::TransportClosed),
        AttemptOutcome::Cancelled,
    ];
    let (res, attempts) = run_request(outcomes, RETRY_COUNT);
    assert_eq!(res, Err(Error::TransportClosed));
    assert_eq!(attempts, 2);
}

#[test]
fn retry_state_steps() {
    let mut st = RetryState::new(RETRY_COUNT);
    match st.on_outcome(AttemptOutcome::Cancelled) {
        RetryStep::Resend => {}
        RetryStep::Deliver(_) => panic!("a cancellation before the ceiling must resend"),
    }
    match st.on_outcome(AttemptOutcome::Cancelled) {
        RetryStep::Resend => {}
        RetryStep::Deliver(_) => panic!("a cancellation before the ceiling must resend"),
    }
    match st.on_outcome(AttemptOutcome::Cancelled) {
        RetryStep::Deliver(res) => assert_eq!(res, Err(Error::RequestTimeout)),
        RetryStep::Resend => panic!("the ceiling must deliver a timeout"),
    }
}

#[test]
fn error_kind_names() {
    assert_eq!(Error::TransportClosed.kind_name(), "transport closed");
    assert_eq!(Error::RequestTimeout.kind_name(), "request timeout");
    assert_eq!(Error::RemoteProtocol { code: 1 }.kind_name(), "remote protocol error");
    assert_eq!(Error::Codec.kind_name(), "codec error");
    assert_eq!(Error::Http { status: 500 }.kind_name(), "http error");
    assert_eq!(Error::FieldParse.kind_name(), "field parse error");
}
