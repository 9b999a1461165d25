use aio_bridge::bridge::{start_read, start_write, AioFuture, BridgeError, SlotTable};
use aio_bridge::context::AioContext;

#[test]
fn future_poll_pending_then_ready() {
    let mut future: AioFuture<u32> = AioFuture::new();
    assert!(future.rc.is_none());
    assert!(future.waker.is_none());
    // first poll: no result yet, the resume handle is parked
    assert_eq!(future.poll(17), None);
    assert_eq!(future.waker, Some(17));
    // completion stores the result and hands the handle back
    assert_eq!(future.complete(904), Some(17));
    assert_eq!(future.rc, Some(904));
    assert!(future.waker.is_none());
    // every later poll observes the stored result
    assert_eq!(future.poll(18), Some(904));
    assert_eq!(future.poll(19), Some(904));
}

#[test]
fn resume_is_idempotent_safe() {
    // after the first resume the task sees a completed result on every poll
    // and parks no further handle: it cannot suspend again
    let mut table: SlotTable<u32> = SlotTable::new();
    let t = table.register();
    assert_eq!(table.poll(t, 1), None);
    assert_eq!(table.complete(t, 42), Ok(Some(1)));
    for w in [2u32, 3, 4] {
        assert_eq!(table.poll(t, w), Some(42));
    }
    assert_eq!(table.result_of(t), Some(42));
}

#[test]
fn slot_table_hands_out_consecutive_tokens() {
    let mut table: SlotTable<u32> = SlotTable::new();
    assert_eq!(table.len(), 0);
    assert_eq!(table.register(), 0);
    assert_eq!(table.register(), 1);
    assert_eq!(table.register(), 2);
    assert_eq!(table.len(), 3);
    assert!(table.has_slot(2));
    assert!(!table.has_slot(3));
}

#[test]
fn complete_refuses_unknown_and_double() {
    let mut table: SlotTable<u32> = SlotTable::new();
    assert_eq!(table.complete(0, 1), Err(BridgeError::UnknownToken));
    let t = table.register();
    // the task has not suspended yet: no handle to return
    assert_eq!(table.complete(t, 7), Ok(None));
    // a result is stored exactly once
    assert_eq!(table.complete(t, 8), Err(BridgeError::AlreadyCompleted));
    assert_eq!(table.result_of(t), Some(7));
}

#[test]
fn two_operations_resume_their_own_tasks() {
    // two reads with two tokens on one table: each completion hands back the
    // handle of its own task, whatever order the kernel delivers
    let mut table: SlotTable<u32> = SlotTable::new();
    let t0 = table.register();
    let t1 = table.register();
    assert_eq!(table.poll(t0, 100), None);
    assert_eq!(table.poll(t1, 200), None);
    // completions arrive in the reverse of submission order
    assert_eq!(table.complete(t1, 2222), Ok(Some(200)));
    assert_eq!(table.complete(t0, 1111), Ok(Some(100)));
    assert_eq!(table.result_of(t0), Some(1111));
    assert_eq!(table.result_of(t1), Some(2222));
}

#[test]
fn start_read_builds_the_descriptor() {
    let mut table: SlotTable<u32> = SlotTable::new();
    let mut ctx = AioContext::new();
    let req = start_read(&mut table, &mut ctx, 3, 0x2000, 4096, 0).expect("submission accepted");
    assert_eq!(req.fd, 3);
    assert!(!req.write);
    assert_eq!(req.buf, 0x2000);
    assert_eq!(req.length, 4096);
    assert_eq!(req.offset, 0);
    assert_eq!(req.data, 0);
    assert!(ctx.has_token(0));
    assert!(table.has_slot(0));
}

#[test]
fn start_write_builds_the_descriptor() {
    let mut table: SlotTable<u32> = SlotTable::new();
    let mut ctx = AioContext::new();
    let _ = start_read(&mut table, &mut ctx, 3, 0x2000, 4096, 0).expect("submission accepted");
    let req =
        start_write(&mut table, &mut ctx, 4, 0x2000, 4096, 4096).expect("submission accepted");
    assert_eq!(req.fd, 4);
    assert!(req.write);
    assert_eq!(req.offset, 4096);
    // the second operation gets the next fresh token
    assert_eq!(req.data, 1);
    assert!(ctx.has_token(1));
}
