use aio_bridge::context::{AioContext, CompleteError, PollError, SubmitError, QUEUE_DEPTH};
use aio_bridge::request::{AioEvent, AioRequest};

fn read_req(token: u64) -> AioRequest {
    AioRequest::new_read(3, 0x1000, 4096, 0, token)
}

#[test]
fn context_default_depth() {
    let ctx = AioContext::new();
    assert_eq!(ctx.depth(), QUEUE_DEPTH);
    assert_eq!(ctx.depth(), 32);
    assert_eq!(ctx.inflight_count(), 0);
}

#[test]
fn submit_records_token() {
    let mut ctx = AioContext::new();
    assert!(!ctx.has_token(7));
    assert_eq!(ctx.submit(&read_req(7)), Ok(()));
    assert!(ctx.has_token(7));
    assert_eq!(ctx.inflight_count(), 1);
}

#[test]
fn submit_refuses_duplicate_token() {
    let mut ctx = AioContext::new();
    assert_eq!(ctx.submit(&read_req(7)), Ok(()));
    assert_eq!(ctx.submit(&read_req(7)), Err(SubmitError::DuplicateToken));
    assert_eq!(ctx.inflight_count(), 1);
}

#[test]
fn submit_refuses_past_queue_depth() {
    let mut ctx = AioContext::with_depth(2);
    assert_eq!(ctx.submit(&read_req(0)), Ok(()));
    assert_eq!(ctx.submit(&read_req(1)), Ok(()));
    assert_eq!(ctx.submit(&read_req(2)), Err(SubmitError::QueueFull));
    // consuming a completion makes headroom again
    assert_eq!(ctx.complete(&AioEvent::new(4096, 0)), Ok(()));
    assert_eq!(ctx.submit(&read_req(2)), Ok(()));
}

#[test]
fn complete_refuses_unknown_token() {
    let mut ctx = AioContext::new();
    assert_eq!(
        ctx.complete(&AioEvent::new(0, 9)),
        Err(CompleteError::UnknownToken)
    );
    assert_eq!(ctx.submit(&read_req(9)), Ok(()));
    assert_eq!(ctx.complete(&AioEvent::new(0, 9)), Ok(()));
    // each submission completes at most once
    assert_eq!(
        ctx.complete(&AioEvent::new(0, 9)),
        Err(CompleteError::UnknownToken)
    );
}

#[test]
fn tokens_conserved_over_a_burst() {
    // N submissions on a context of depth >= N: the completions observed are
    // exactly the tokens submitted, each exactly once, in any delivery order
    let mut ctx = AioContext::with_depth(8);
    let tokens = [11u64, 22, 33, 44];
    for t in tokens {
        assert_eq!(ctx.submit(&read_req(t)), Ok(()));
    }
    assert_eq!(ctx.inflight_count(), 4);
    // kernel delivery order need not match submission order
    let mut seen = Vec::new();
    for t in [33u64, 11, 44, 22] {
        assert_eq!(ctx.complete(&AioEvent::new(4096, t)), Ok(()));
        seen.push(t);
    }
    assert_eq!(ctx.inflight_count(), 0);
    seen.sort();
    assert_eq!(seen, vec![11, 22, 33, 44]);
    // nothing completes twice and nothing is left over
    for t in tokens {
        assert_eq!(
            ctx.complete(&AioEvent::new(4096, t)),
            Err(CompleteError::UnknownToken)
        );
    }
}

#[test]
fn getevents_interprets_poll_return() {
    assert_eq!(
        AioContext::getevents(1, 904, 5),
        Ok(Some(AioEvent { ret: 904, data: 5 }))
    );
    assert_eq!(AioContext::getevents(0, 0, 0), Ok(None));
    assert_eq!(AioContext::getevents(-11, 0, 0), Err(PollError { code: -11 }));
}
