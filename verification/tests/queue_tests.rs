use worker_pool::JobQueue;
use worker_pool::Message;
use worker_pool::Received;

#[test]
fn queue_delivers_in_fifo_order() {
    let mut q = JobQueue::new(1);
    assert!(q.send(Message::NewJob(1)).is_ok());
    assert!(q.send(Message::Terminate).is_ok());
    assert!(q.send(Message::NewJob(2)).is_ok());
    assert_eq!(q.message_count(), 3);
    assert_eq!(q.receive(), Received::Message(Message::NewJob(1)));
    assert_eq!(q.receive(), Received::Message(Message::Terminate));
    assert_eq!(q.receive(), Received::Message(Message::NewJob(2)));
    assert_eq!(q.message_count(), 0);
}

#[test]
fn receive_on_open_empty_queue_waits() {
    let mut q = JobQueue::new(2);
    assert_eq!(q.receive(), Received::Empty);
    assert_eq!(q.receive(), Received::Empty);
}

#[test]
fn send_fails_when_no_consumer_remains() {
    let mut q = JobQueue::new(1);
    assert!(q.send(Message::NewJob(7)).is_ok());
    q.consumer_gone();
    assert!(q.send(Message::NewJob(8)).is_err());
    // the failed send changed nothing: the first message is still delivered
    assert_eq!(q.message_count(), 1);
    assert_eq!(q.receive(), Received::Message(Message::NewJob(7)));

    let mut empty = JobQueue::new(0);
    assert!(empty.send(Message::Terminate).is_err());
}

#[test]
fn receive_reports_disconnected_after_producer_closes() {
    let mut q = JobQueue::new(1);
    assert!(q.send(Message::NewJob(5)).is_ok());
    q.close_producer();
    // messages queued before the producer went away are still delivered
    assert_eq!(q.receive(), Received::Message(Message::NewJob(5)));
    assert_eq!(q.receive(), Received::Disconnected);
}
