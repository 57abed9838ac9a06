use rt::fanout::Fanout;
use rt::pty::{reader_action, ReadOutcome, ReaderAction};

#[test]
fn test_every_subscriber_observes_every_chunk_after_its_subscription() {
    let mut fanout = Fanout::new(8);
    assert!(fanout.publish(b"before".to_vec()));
    let early = fanout.subscribe();
    assert!(fanout.publish(b"one".to_vec()));
    let late = fanout.subscribe();
    assert!(fanout.publish(b"two".to_vec()));
    assert!(fanout.publish(b"three".to_vec()));

    let got = fanout.receive(early);
    assert_eq!(got.chunks, vec![b"one".to_vec(), b"two".to_vec(), b"three".to_vec()]);
    assert_eq!((got.next, got.missed), (4, 0));

    let got = fanout.receive(late);
    assert_eq!(got.chunks, vec![b"two".to_vec(), b"three".to_vec()]);
    assert_eq!((got.next, got.missed), (4, 0));

    let again = fanout.receive(early);
    assert_eq!(again.chunks.len(), 3);
    let nothing = fanout.receive(got.next);
    assert!(nothing.chunks.is_empty());
    assert_eq!((nothing.next, nothing.missed), (4, 0));
    assert_eq!(fanout.published_count(), 4);
}

#[test]
fn test_subscriber_that_never_reads_does_not_stall_the_publisher() {
    let mut fanout = Fanout::new(3);
    let sleeper = fanout.subscribe();
    let mut reader = fanout.subscribe();
    let mut seen: Vec<u8> = Vec::new();
    for i in 0..10u8 {
        assert!(fanout.publish(vec![i]));
        let got = fanout.receive(reader);
        assert_eq!(got.missed, 0);
        for chunk in got.chunks {
            seen.extend(chunk);
        }
        reader = got.next;
    }
    assert_eq!(seen, (0..10u8).collect::<Vec<u8>>());

    let got = fanout.receive(sleeper);
    assert_eq!(got.chunks, vec![vec![7u8], vec![8u8], vec![9u8]]);
    assert_eq!((got.next, got.missed), (10, 7));
}

#[test]
fn test_fanout_of_capacity_zero_and_cursor_ahead() {
    let mut fanout = Fanout::new(0);
    let cursor = fanout.subscribe();
    assert!(fanout.publish(b"x".to_vec()));
    let got = fanout.receive(cursor);
    assert!(got.chunks.is_empty());
    assert_eq!((got.next, got.missed), (1, 1));
    let got = fanout.receive(5);
    assert!(got.chunks.is_empty());
    assert_eq!((got.next, got.missed), (5, 0));
}

#[test]
fn test_reader_actions() {
    assert_eq!(reader_action(true, ReadOutcome::Data(17)), ReaderAction::Publish(17));
    assert_eq!(reader_action(true, ReadOutcome::Data(0)), ReaderAction::Stop);
    assert_eq!(reader_action(true, ReadOutcome::WouldBlock), ReaderAction::Wait);
    assert_eq!(reader_action(true, ReadOutcome::Failed), ReaderAction::Stop);
    assert_eq!(reader_action(false, ReadOutcome::Data(17)), ReaderAction::Stop);
    assert_eq!(reader_action(false, ReadOutcome::WouldBlock), ReaderAction::Stop);
}
