use marble_client::auth_retry::{
    after_relogin, bearer_value, grpc_endpoint, single_call_after_reply, CallReply, CallStep, RegisterRetry, REGISTER_ATTEMPTS,
};

#[test]
fn single_call_relogs_once_on_refused_token() {
    assert_eq!(single_call_after_reply(false, CallReply::Success), CallStep::Succeed);
    assert_eq!(single_call_after_reply(false, CallReply::Failed), CallStep::Fail);
    assert_eq!(single_call_after_reply(false, CallReply::Unauthenticated), CallStep::Relogin);
    assert_eq!(after_relogin(true), CallStep::Resend);
    assert_eq!(after_relogin(false), CallStep::Fail);
    assert_eq!(single_call_after_reply(true, CallReply::Unauthenticated), CallStep::Fail);
    assert_eq!(single_call_after_reply(true, CallReply::Success), CallStep::Succeed);
}

#[test]
fn register_retries_other_failures_up_to_four_attempts() {
    let mut r = RegisterRetry::new();
    let mut sends = 1;
    loop {
        match r.on_reply(CallReply::Failed) {
            CallStep::RetryAfterDelay => sends += 1,
            CallStep::Fail => break,
            other => panic!("unexpected step {:?}", other),
        }
    }
    assert_eq!(sends, REGISTER_ATTEMPTS);
    assert_eq!(r.attempt, REGISTER_ATTEMPTS - 1);
}

#[test]
fn register_relogs_once_and_uses_an_attempt() {
    let mut r = RegisterRetry::new();
    assert_eq!(r.on_reply(CallReply::Unauthenticated), CallStep::Relogin);
    assert!(r.relogin_attempted);
    assert_eq!(r.on_relogin(true), CallStep::Resend);
    assert_eq!(r.attempt, 1);
    // a second refused token is treated as a plain failure
    assert_eq!(r.on_reply(CallReply::Unauthenticated), CallStep::RetryAfterDelay);
    assert_eq!(r.attempt, 2);
    assert_eq!(r.on_reply(CallReply::Success), CallStep::Succeed);
}

#[test]
fn register_gives_up_without_new_token() {
    let mut r = RegisterRetry::new();
    assert_eq!(r.on_reply(CallReply::Unauthenticated), CallStep::Relogin);
    assert_eq!(r.on_relogin(false), CallStep::Fail);
}

#[test]
fn register_relogin_on_last_attempt_ends_the_registration() {
    let mut r = RegisterRetry::new();
    for _ in 0..3 {
        assert_eq!(r.on_reply(CallReply::Failed), CallStep::RetryAfterDelay);
    }
    assert_eq!(r.on_reply(CallReply::Unauthenticated), CallStep::Relogin);
    assert_eq!(r.on_relogin(true), CallStep::Fail);
}

#[test]
fn auth_header_and_endpoint() {
    assert_eq!(bearer_value(&Some("abc.def".to_string())), Some("Bearer abc.def".to_string()));
    assert_eq!(bearer_value(&None), None);
    assert_eq!(grpc_endpoint("https://marble.example"), "https://marble.example/grpc");
}
