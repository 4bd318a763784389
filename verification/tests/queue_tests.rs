use rgb_led::queue::{QUEUE_CAPACITY, QUEUE_SLOTS};
use rgb_led::{ByteQueue, SerialParser};

#[test]
fn queue_sizes() {
    assert_eq!(QUEUE_SLOTS, 16384);
    assert_eq!(QUEUE_CAPACITY, 16383);
}

#[test]
fn new_queue_is_empty() {
    let mut queue = ByteQueue::new();
    assert_eq!(queue.len(), 0);
    assert_eq!(queue.dequeue(), None);
    assert_eq!(queue.len(), 0);
}

#[test]
fn bytes_leave_in_the_order_they_came() {
    let mut queue = ByteQueue::new();
    assert!(queue.enqueue(1));
    assert!(queue.enqueue(2));
    assert!(queue.enqueue(3));
    assert_eq!(queue.len(), 3);
    assert_eq!(queue.dequeue(), Some(1));
    assert_eq!(queue.len(), 2);
    assert!(queue.enqueue(4));
    assert_eq!(queue.dequeue(), Some(2));
    assert_eq!(queue.dequeue(), Some(3));
    assert_eq!(queue.dequeue(), Some(4));
    assert_eq!(queue.dequeue(), None);
}

#[test]
fn a_full_queue_drops_the_newest_byte() {
    let mut queue = ByteQueue::new();
    for i in 0..QUEUE_CAPACITY {
        assert!(queue.enqueue((i % 256) as u8));
    }
    assert_eq!(queue.len(), QUEUE_CAPACITY);
    assert!(!queue.enqueue(0xEE));
    assert!(!queue.enqueue(0xEF));
    assert_eq!(queue.len(), QUEUE_CAPACITY);
    for i in 0..QUEUE_CAPACITY {
        assert_eq!(queue.dequeue(), Some((i % 256) as u8));
    }
    assert_eq!(queue.dequeue(), None);
}

#[test]
fn more_bytes_than_fit_are_cut_at_the_capacity() {
    let mut queue = ByteQueue::new();
    let input: Vec<u8> = (0..QUEUE_CAPACITY + 500).map(|i| (i % 251) as u8).collect();
    assert_eq!(queue.enqueue_all(&input), QUEUE_CAPACITY);
    assert_eq!(queue.len(), QUEUE_CAPACITY);
    assert_eq!(queue.enqueue_all(&[1, 2, 3]), 0);
    assert_eq!(queue.len(), QUEUE_CAPACITY);
    for i in 0..QUEUE_CAPACITY {
        assert_eq!(queue.dequeue(), Some((i % 251) as u8));
    }
    assert_eq!(queue.dequeue(), None);
}

#[test]
fn bytes_that_fit_all_go_in() {
    let mut queue = ByteQueue::new();
    assert_eq!(queue.enqueue_all(&[]), 0);
    assert_eq!(queue.enqueue_all(&[5, 6, 7]), 3);
    assert_eq!(queue.enqueue_all(&[8]), 1);
    assert_eq!(queue.len(), 4);
    assert_eq!(queue.dequeue(), Some(5));
    assert_eq!(queue.dequeue(), Some(6));
    assert_eq!(queue.dequeue(), Some(7));
    assert_eq!(queue.dequeue(), Some(8));
}

#[test]
fn a_queue_that_was_emptied_takes_bytes_again() {
    let mut queue = ByteQueue::new();
    let input = vec![9u8; QUEUE_CAPACITY];
    assert_eq!(queue.enqueue_all(&input), QUEUE_CAPACITY);
    assert_eq!(queue.dequeue(), Some(9));
    assert_eq!(queue.enqueue_all(&[1, 2]), 1);
    assert_eq!(queue.len(), QUEUE_CAPACITY);
}

#[test]
fn split_ends_share_the_queue() {
    let queue: &'static mut ByteQueue = Box::leak(Box::new(ByteQueue::new()));
    queue.enqueue(0xAA);
    let (mut producer, mut consumer) = queue.split();
    assert_eq!(producer.capacity(), QUEUE_CAPACITY);
    assert_eq!(consumer.dequeue(), Some(0xAA));
    assert_eq!(consumer.dequeue(), None);
    producer.enqueue(7).unwrap();
    assert_eq!(consumer.dequeue(), Some(7));
}

#[test]
fn parser_reads_what_was_queued_before_the_split() {
    let queue: &'static mut ByteQueue = Box::leak(Box::new(ByteQueue::new()));
    assert_eq!(queue.enqueue_all(&[0x00, 0xAA, 0x01, 0x00, 0x01, 0x01, 0xD1, 0x64]), 8);
    let (_producer, consumer) = queue.split();
    let mut parser = SerialParser::new(consumer);
    let command = parser.read_buffer_into_command().unwrap();
    assert_eq!(command.action, 0x01);
    assert_eq!(command.data[0], 1);
}

#[test]
fn a_queue_filled_past_its_capacity_loses_the_frame_that_did_not_fit() {
    let queue: &'static mut ByteQueue = Box::leak(Box::new(ByteQueue::new()));
    let garbage = vec![0x00u8; QUEUE_CAPACITY - 3];
    assert_eq!(queue.enqueue_all(&garbage), QUEUE_CAPACITY - 3);
    assert_eq!(queue.enqueue_all(&[0xAA, 0x01, 0x00, 0x01, 0x01, 0xD1, 0x64]), 3);
    let (mut producer, consumer) = queue.split();
    let mut parser = SerialParser::new(consumer);
    for _ in 0..40 {
        assert!(parser.read_buffer_into_command().is_none());
    }
    assert_eq!(parser.buffered(), 3);
    for byte in [0x01, 0x01, 0xD1, 0x64] {
        producer.enqueue(byte).unwrap();
    }
    let command = parser.read_buffer_into_command().unwrap();
    assert_eq!(command.action, 0x01);
}
