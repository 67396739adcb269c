use mfrc522::error::Error;
use mfrc522::fifo::{FifoBuffer, FIFO_CAPACITY};

#[test]
fn new_buffer_is_empty() {
    let fifo = FifoBuffer::new();
    assert_eq!(fifo.level(), 0);
    assert_eq!(fifo.remaining(), 64);
    assert_eq!(fifo.contents(), Vec::<u8>::new());
    assert_eq!(FIFO_CAPACITY, 64);
}

#[test]
fn buffer_push_then_pull_returns_the_same_bytes() {
    for len in 0..=64usize {
        let bytes: Vec<u8> = (0..len).map(|i| (i * 7 + 3) as u8).collect();
        let mut fifo = FifoBuffer::new();
        assert_eq!(fifo.push(&bytes), Ok(()));
        assert_eq!(fifo.level() as usize, len);
        assert_eq!(fifo.pull(len), Ok(bytes));
        assert_eq!(fifo.level(), 0);
    }
}

#[test]
fn buffer_is_first_in_first_out() {
    let mut fifo = FifoBuffer::new();
    assert_eq!(fifo.push(&[1, 2, 3]), Ok(()));
    assert_eq!(fifo.push(&[4, 5]), Ok(()));
    assert_eq!(fifo.level(), 5);
    assert_eq!(fifo.pull(2), Ok(vec![1, 2]));
    assert_eq!(fifo.contents(), vec![3, 4, 5]);
    assert_eq!(fifo.pull(3), Ok(vec![3, 4, 5]));
}

#[test]
fn buffer_overflow_leaves_content_unchanged() {
    let mut fifo = FifoBuffer::new();
    let sixty: Vec<u8> = (0..60).collect();
    assert_eq!(fifo.push(&sixty), Ok(()));
    assert_eq!(fifo.push(&[1, 2, 3, 4, 5]), Err(Error::Overflow));
    assert_eq!(fifo.level(), 60);
    assert_eq!(fifo.contents(), sixty);
    assert_eq!(fifo.push(&[1, 2, 3, 4]), Ok(()));
    assert_eq!(fifo.level(), 64);
    assert_eq!(fifo.remaining(), 0);
    assert_eq!(fifo.push(&[9]), Err(Error::Overflow));
    assert_eq!(fifo.push(&[]), Ok(()));
}

#[test]
fn buffer_rejects_sixty_five_bytes() {
    let mut fifo = FifoBuffer::new();
    let bytes = [0xAAu8; 65];
    assert_eq!(fifo.push(&bytes), Err(Error::Overflow));
    assert_eq!(fifo.level(), 0);
}

#[test]
fn buffer_underflow_leaves_content_unchanged() {
    let mut fifo = FifoBuffer::new();
    assert_eq!(fifo.pull(1), Err(Error::Underflow));
    assert_eq!(fifo.push(&[7, 8]), Ok(()));
    assert_eq!(fifo.pull(3), Err(Error::Underflow));
    assert_eq!(fifo.contents(), vec![7, 8]);
    assert_eq!(fifo.pull(0), Ok(vec![]));
    assert_eq!(fifo.pull(2), Ok(vec![7, 8]));
}

#[test]
fn buffer_wraps_around_its_ring() {
    let mut fifo = FifoBuffer::new();
    let first: Vec<u8> = (0..50).collect();
    assert_eq!(fifo.push(&first), Ok(()));
    assert_eq!(fifo.pull(40), Ok((0..40).collect::<Vec<u8>>()));
    let second: Vec<u8> = (100..150).collect();
    assert_eq!(fifo.push(&second), Ok(()));
    assert_eq!(fifo.level(), 60);
    let mut expected: Vec<u8> = (40..50).collect();
    expected.extend(100..150);
    assert_eq!(fifo.contents(), expected);
    assert_eq!(fifo.pull(60), Ok(expected));
    assert_eq!(fifo.level(), 0);
}

#[test]
fn buffer_clear_empties() {
    let mut fifo = FifoBuffer::new();
    assert_eq!(fifo.push(&[1, 2, 3]), Ok(()));
    fifo.clear();
    assert_eq!(fifo.level(), 0);
    assert_eq!(fifo.pull(1), Err(Error::Underflow));
    assert_eq!(fifo.push(&[4]), Ok(()));
    assert_eq!(fifo.contents(), vec![4]);
}

#[test]
fn default_buffer_is_empty() {
    let fifo = FifoBuffer::default();
    assert_eq!(fifo.level(), 0);
    assert_eq!(fifo.contents(), Vec::<u8>::new());
}
