use allelua::queue::{channel_kind, BufferedQueue, ChannelKind, PopPoll, PushPoll, PushState, UnbufferedQueue};
use allelua::sync::QueueError;

#[test]
fn buffered_queue_blocks_when_full_and_wakes_pusher() {
    let mut q: BufferedQueue<i32> = BufferedQueue::new(2);
    assert!(matches!(q.poll_push(1, 10), PushPoll::Done(Ok(()), None)));
    assert!(matches!(q.poll_push(1, 20), PushPoll::Done(Ok(()), None)));
    assert!(matches!(q.poll_push(2, 30), PushPoll::Blocked(30)));
    assert!(matches!(q.poll_pop(3), PopPoll::Done(Ok(10), Some(2))));
    assert!(matches!(q.poll_push(2, 30), PushPoll::Done(Ok(()), None)));
    assert_eq!(q.len(), 2);
}

#[test]
fn buffered_queue_wakes_popper_on_push() {
    let mut q: BufferedQueue<i32> = BufferedQueue::new(1);
    assert!(matches!(q.poll_pop(5), PopPoll::Blocked));
    assert!(matches!(q.poll_push(6, 1), PushPoll::Done(Ok(()), Some(5))));
    assert!(matches!(q.poll_pop(5), PopPoll::Done(Ok(1), Some(_)) | PopPoll::Done(Ok(1), None)));
}

#[test]
fn closed_buffered_queue_drains_then_refuses() {
    let mut q: BufferedQueue<i32> = BufferedQueue::new(3);
    q.poll_push(1, 7);
    let (was_closed, woken) = q.close();
    assert!(!was_closed);
    assert!(woken.is_empty());
    assert!(q.is_closed());
    assert!(matches!(q.poll_push(1, 8), PushPoll::Done(Err(QueueError::Closed), None)));
    assert!(matches!(q.poll_pop(2), PopPoll::Done(Ok(7), None)));
    assert!(matches!(q.poll_pop(2), PopPoll::Done(Err(QueueError::Closed), None)));
    assert!(q.close().0);
}

#[test]
fn unbuffered_queue_hands_value_to_popper() {
    let mut q: UnbufferedQueue<&str> = UnbufferedQueue::new();
    assert!(matches!(q.poll_pop(2), PopPoll::Blocked));
    let first = q.poll_push(1, PushState::Holding("hi"));
    assert!(first.done.is_none());
    assert!(matches!(first.state, PushState::Placed));
    assert_eq!(first.woken, Some(2));
    assert!(matches!(q.poll_pop(2), PopPoll::Done(Ok("hi"), Some(1))));
    let second = q.poll_push(1, first.state);
    assert_eq!(second.done, Some(Ok(())));
}

#[test]
fn unbuffered_close_wakes_waiters_and_pusher() {
    let mut q: UnbufferedQueue<u8> = UnbufferedQueue::new();
    let placed = q.poll_push(1, PushState::Holding(3));
    assert!(placed.done.is_none());
    let other = q.poll_push(4, PushState::Holding(5));
    assert!(other.done.is_none());
    assert_eq!(other.woken, Some(4));
    let (was_closed, woken) = q.close();
    assert!(!was_closed);
    assert_eq!(woken, vec![1]);
    assert!(matches!(q.poll_pop(2), PopPoll::Done(Err(QueueError::Closed), None)));
}

#[test]
fn channel_kind_follows_capacity() {
    assert_eq!(channel_kind(None), ChannelKind::Unbuffered);
    assert_eq!(channel_kind(Some(0)), ChannelKind::Unbuffered);
    assert_eq!(channel_kind(Some(3)), ChannelKind::Buffered(3));
}

#[test]
fn push_pop_within_bounds() {
    let mut q: BufferedQueue<i64> = BufferedQueue::new(10);
    for i in 0..10 {
        assert!(matches!(q.poll_push(1, i), PushPoll::Done(Ok(()), None)));
    }
    for i in 0..10 {
        match q.poll_pop(2) {
            PopPoll::Done(Ok(j), None) => assert_eq!(i, j),
            _ => panic!("pop did not complete at once"),
        }
    }
}

#[test]
fn push_out_of_bounds() {
    let mut q: BufferedQueue<i64> = BufferedQueue::new(10);
    for i in 0..10 {
        assert!(matches!(q.poll_push(1, i), PushPoll::Done(Ok(()), None)));
    }
    assert!(matches!(q.poll_push(1, -1), PushPoll::Blocked(-1)));
    assert!(matches!(q.poll_pop(2), PopPoll::Done(Ok(0), Some(1))));
    assert!(matches!(q.poll_push(1, -1), PushPoll::Done(Ok(()), None)));
}

#[test]
fn pop_out_of_bounds() {
    let mut q: BufferedQueue<()> = BufferedQueue::new(10);
    assert!(matches!(q.poll_pop(1), PopPoll::Blocked));
    assert!(matches!(q.poll_push(2, ()), PushPoll::Done(Ok(()), Some(1))));
    assert!(matches!(q.poll_pop(1), PopPoll::Done(Ok(()), _)));
}

#[test]
fn push_closed_error() {
    let mut q: BufferedQueue<()> = BufferedQueue::new(10);
    q.close();
    assert!(matches!(q.poll_push(1, ()), PushPoll::Done(Err(QueueError::Closed), None)));
}

#[test]
fn pop_closed_error() {
    let mut q: BufferedQueue<()> = BufferedQueue::new(10);
    q.close();
    assert!(matches!(q.poll_pop(1), PopPoll::Done(Err(QueueError::Closed), None)));
}

#[test]
fn push_out_of_bounds_closed_error() {
    let mut q: BufferedQueue<()> = BufferedQueue::new(1);
    assert!(!q.is_closed());
    assert!(matches!(q.poll_push(2, ()), PushPoll::Done(Ok(()), None)));
    assert!(matches!(q.poll_push(2, ()), PushPoll::Blocked(())));
    assert!(matches!(q.poll_pop(1), PopPoll::Done(Ok(()), Some(2))));
    q.close();
    assert!(matches!(q.poll_push(2, ()), PushPoll::Done(Err(QueueError::Closed), None)));
    assert!(q.is_closed());
}

#[test]
fn pop_out_of_bounds_closed_error() {
    let mut q: BufferedQueue<()> = BufferedQueue::new(1);
    assert!(matches!(q.poll_push(1, ()), PushPoll::Done(Ok(()), None)));
    q.close();
    assert!(q.is_closed());
    assert!(matches!(q.poll_pop(2), PopPoll::Done(Ok(()), None)));
    assert!(matches!(q.poll_pop(2), PopPoll::Done(Err(QueueError::Closed), None)));
}

#[test]
fn push_pop_blocks() {
    let mut q: UnbufferedQueue<()> = UnbufferedQueue::new();
    let push = q.poll_push(1, PushState::Holding(()));
    assert!(push.done.is_none());
    assert!(matches!(q.poll_pop(2), PopPoll::Done(Ok(()), Some(1))));
    assert_eq!(q.poll_push(1, push.state).done, Some(Ok(())));
}

#[test]
fn pop_push_blocks() {
    let mut q: UnbufferedQueue<()> = UnbufferedQueue::new();
    assert!(matches!(q.poll_pop(1), PopPoll::Blocked));
    let push = q.poll_push(2, PushState::Holding(()));
    assert!(push.done.is_none());
    assert_eq!(push.woken, Some(1));
    assert!(matches!(q.poll_pop(1), PopPoll::Done(Ok(()), Some(2))));
    assert_eq!(q.poll_push(2, push.state).done, Some(Ok(())));
}

#[test]
fn push_push_pop_pop() {
    let mut q: UnbufferedQueue<i64> = UnbufferedQueue::new();
    let first = q.poll_push(2, PushState::Holding(1));
    assert!(first.done.is_none());
    assert!(matches!(q.poll_pop(1), PopPoll::Done(Ok(1), Some(2))));
    assert!(matches!(q.poll_pop(1), PopPoll::Blocked));
    let done = q.poll_push(2, first.state);
    assert_eq!(done.done, Some(Ok(())));
    assert_eq!(done.woken, Some(1));
    let second = q.poll_push(2, PushState::Holding(2));
    assert!(second.done.is_none());
    assert!(matches!(q.poll_pop(1), PopPoll::Done(Ok(2), Some(2))));
    assert_eq!(q.poll_push(2, second.state).done, Some(Ok(())));
}

#[test]
fn pop_pop_push_push() {
    let mut q: UnbufferedQueue<i64> = UnbufferedQueue::new();
    assert!(matches!(q.poll_pop(1), PopPoll::Blocked));
    let first = q.poll_push(2, PushState::Holding(1));
    assert_eq!(first.woken, Some(1));
    assert!(matches!(q.poll_pop(1), PopPoll::Done(Ok(1), Some(2))));
    assert!(matches!(q.poll_pop(1), PopPoll::Blocked));
    assert_eq!(q.poll_push(2, first.state).done, Some(Ok(())));
    let second = q.poll_push(2, PushState::Holding(2));
    assert!(matches!(q.poll_pop(1), PopPoll::Done(Ok(2), Some(2))));
    assert_eq!(q.poll_push(2, second.state).done, Some(Ok(())));
}

#[test]
fn pop_pop_push_close_push() {
    let mut q: UnbufferedQueue<()> = UnbufferedQueue::new();
    assert!(matches!(q.poll_pop(1), PopPoll::Blocked));
    let push = q.poll_push(2, PushState::Holding(()));
    assert!(matches!(q.poll_pop(1), PopPoll::Done(Ok(()), Some(2))));
    assert!(matches!(q.poll_pop(1), PopPoll::Blocked));
    assert_eq!(q.poll_push(2, push.state).done, Some(Ok(())));
    q.close();
    assert_eq!(q.poll_push(2, PushState::Holding(())).done, Some(Err(QueueError::Closed)));
    assert!(matches!(q.poll_pop(1), PopPoll::Done(Err(QueueError::Closed), None)));
}

#[test]
fn push_push_pop_close_pop() {
    let mut q: UnbufferedQueue<()> = UnbufferedQueue::new();
    let first = q.poll_push(1, PushState::Holding(()));
    assert!(matches!(q.poll_pop(2), PopPoll::Done(Ok(()), Some(1))));
    assert_eq!(q.poll_push(1, first.state).done, Some(Ok(())));
    let second = q.poll_push(1, PushState::Holding(()));
    assert!(second.done.is_none());
    let (was_closed, woken) = q.close();
    assert!(!was_closed);
    assert_eq!(woken, vec![1]);
    assert_eq!(q.poll_push(1, second.state).done, Some(Err(QueueError::Closed)));
    assert!(matches!(q.poll_pop(2), PopPoll::Done(Err(QueueError::Closed), None)));
}

#[test]
fn unbuffered_value_waits_in_slot_through_other_pushes() {
    let mut q: UnbufferedQueue<i64> = UnbufferedQueue::new();
    let first = q.poll_push(1, PushState::Holding(7));
    assert!(first.done.is_none());
    let other = q.poll_push(2, PushState::Holding(8));
    assert!(other.done.is_none());
    assert!(matches!(other.state, PushState::Holding(8)));
    assert!(matches!(q.poll_pop(3), PopPoll::Done(Ok(7), Some(1))));
    assert_eq!(q.poll_push(1, first.state).done, Some(Ok(())));
}
