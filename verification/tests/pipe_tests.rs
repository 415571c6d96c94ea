use std::task::Waker;

use ergot_demo::{pipe, PipeInner, ReadPoll, WritePoll};

fn waker() -> &'static Waker {
    Waker::noop()
}

fn read_bytes(p: ReadPoll) -> Option<Vec<u8>> {
    match p {
        ReadPoll::Ready(v) => Some(v),
        ReadPoll::Pending => None,
    }
}

#[test]
fn written_bytes_are_read_back_in_order() {
    let (w, r) = pipe(16);
    assert!(matches!(w.poll_write(waker(), b"hello"), WritePoll::Written(5)));
    assert!(matches!(w.poll_write(waker(), b" world"), WritePoll::Written(6)));
    assert_eq!(read_bytes(r.poll_read(waker(), 64)), Some(b"hello world".to_vec()));
}

#[test]
fn read_takes_at_most_the_requested_bytes() {
    let (w, r) = pipe(8);
    assert!(matches!(w.poll_write(waker(), &[1, 2, 3, 4, 5]), WritePoll::Written(5)));
    assert_eq!(read_bytes(r.poll_read(waker(), 2)), Some(vec![1, 2]));
    assert_eq!(read_bytes(r.poll_read(waker(), 10)), Some(vec![3, 4, 5]));
}

#[test]
fn write_accepts_only_what_fits_and_then_waits() {
    let (w, r) = pipe(4);
    assert!(matches!(w.poll_write(waker(), &[9, 8, 7, 6, 5, 4]), WritePoll::Written(4)));
    assert!(matches!(w.poll_write(waker(), &[1]), WritePoll::Pending));
    assert_eq!(read_bytes(r.poll_read(waker(), 1)), Some(vec![9]));
    assert!(matches!(w.poll_write(waker(), &[1, 2]), WritePoll::Written(1)));
    assert_eq!(read_bytes(r.poll_read(waker(), 8)), Some(vec![8, 7, 6, 1]));
}

#[test]
fn empty_open_pipe_makes_the_reader_wait() {
    let (_w, r) = pipe(4);
    assert_eq!(read_bytes(r.poll_read(waker(), 4)), None);
}

#[test]
fn closed_writer_gives_end_of_stream_after_the_buffer_drains() {
    let (w, r) = pipe(4);
    assert!(matches!(w.poll_write(waker(), &[1, 2]), WritePoll::Written(2)));
    w.close();
    assert_eq!(read_bytes(r.poll_read(waker(), 4)), Some(vec![1, 2]));
    assert_eq!(read_bytes(r.poll_read(waker(), 4)), Some(vec![]));
    assert!(matches!(w.poll_write(waker(), &[3]), WritePoll::Closed));
}

#[test]
fn closed_reader_breaks_the_pipe() {
    let (w, r) = pipe(4);
    assert!(matches!(w.poll_write(waker(), &[1, 2]), WritePoll::Written(2)));
    r.close();
    assert!(matches!(w.poll_write(waker(), &[3]), WritePoll::Closed));
}

#[test]
fn pipe_state_reports_each_step() {
    let mut p = PipeInner::new(3);
    assert!(matches!(p.write(waker(), &[1, 2, 3]), WritePoll::Written(3)));
    assert!(matches!(p.write(waker(), &[4]), WritePoll::Pending));
    assert_eq!(read_bytes(p.read(waker(), 2)), Some(vec![1, 2]));
    assert!(matches!(p.write(waker(), &[]), WritePoll::Written(0)));
    p.close_reader();
    assert!(matches!(p.write(waker(), &[5]), WritePoll::Closed));
    assert_eq!(read_bytes(p.read(waker(), 2)), None);
    p.close_writer();
    assert_eq!(read_bytes(p.read(waker(), 2)), Some(vec![]));
}

struct CountingWake(std::sync::atomic::AtomicUsize);

impl std::task::Wake for CountingWake {
    fn wake(self: std::sync::Arc<Self>) {
        self.0.fetch_add(1, std::sync::atomic::Ordering::SeqCst);
    }
}

#[test]
fn waiting_ends_are_woken() {
    let counter = std::sync::Arc::new(CountingWake(std::sync::atomic::AtomicUsize::new(0)));
    let w: Waker = counter.clone().into();
    let (writer, reader) = pipe(1);
    assert!(matches!(reader.poll_read(&w, 1), ReadPoll::Pending));
    assert_eq!(counter.0.load(std::sync::atomic::Ordering::SeqCst), 0);
    assert!(matches!(writer.poll_write(&w, &[7]), WritePoll::Written(1)));
    assert_eq!(counter.0.load(std::sync::atomic::Ordering::SeqCst), 1);
    assert!(matches!(writer.poll_write(&w, &[8]), WritePoll::Pending));
    assert_eq!(read_bytes(reader.poll_read(&w, 1)), Some(vec![7]));
    assert_eq!(counter.0.load(std::sync::atomic::Ordering::SeqCst), 2);
    assert!(matches!(reader.poll_read(&w, 1), ReadPoll::Pending));
    writer.close();
    assert_eq!(counter.0.load(std::sync::atomic::Ordering::SeqCst), 3);
    assert_eq!(read_bytes(reader.poll_read(&w, 1)), Some(vec![]));
}
