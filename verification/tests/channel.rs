use workpool::DispatchChannel;
use workpool::ReceiveOutcome;

#[test]
fn fresh_channel_is_empty_and_open() {
    let mut c = DispatchChannel::new();
    assert_eq!(c.pending_len(), 0);
    assert!(c.is_open());
    assert_eq!(c.try_receive(), ReceiveOutcome::WouldBlock);
}

#[test]
fn jobs_come_out_in_submission_order() {
    let mut c = DispatchChannel::new();
    c.send(11);
    c.send(22);
    c.send(33);
    assert_eq!(c.pending_len(), 3);
    assert_eq!(c.try_receive(), ReceiveOutcome::Job(11));
    assert_eq!(c.try_receive(), ReceiveOutcome::Job(22));
    assert_eq!(c.try_receive(), ReceiveOutcome::Job(33));
    assert_eq!(c.try_receive(), ReceiveOutcome::WouldBlock);
}

#[test]
fn empty_open_channel_blocks_consumer() {
    let mut c = DispatchChannel::new();
    c.send(7);
    assert_eq!(c.try_receive(), ReceiveOutcome::Job(7));
    assert_eq!(c.try_receive(), ReceiveOutcome::WouldBlock);
    assert!(c.is_open());
}

#[test]
fn closure_is_observed_only_after_the_queue_drains() {
    let mut c = DispatchChannel::new();
    c.send(1);
    c.send(2);
    c.close_producer();
    assert!(!c.is_open());
    assert_eq!(c.try_receive(), ReceiveOutcome::Job(1));
    assert_eq!(c.try_receive(), ReceiveOutcome::Job(2));
    assert_eq!(c.try_receive(), ReceiveOutcome::Closed);
    assert_eq!(c.try_receive(), ReceiveOutcome::Closed);
}
