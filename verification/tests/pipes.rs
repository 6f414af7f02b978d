use bytes::Bytes;
use sandbox::local::pipes::{
    stdin_pump_step, write_result, BroadcastAsyncRead, BroadcastChannel, MpscAsyncWrite, PumpEvent,
    PumpStep, ReadStep, RecvEvent, WriteError, BROADCAST_CAPACITY, READ_CHUNK,
};
use sandbox::local::usage::read_memory_mb;
use tokio::sync::{broadcast, mpsc};

fn pending_reader() -> BroadcastAsyncRead {
    let channel = BroadcastChannel::new();
    let mut reader = BroadcastAsyncRead::new(&channel.subscribe());
    assert_eq!(reader.advance(&mut [0u8; 4]), ReadStep::StartRecv);
    assert_eq!(reader.advance(&mut [0u8; 4]), ReadStep::PollRecv);
    reader
}

#[test]
fn a_chunk_is_read_in_pieces() {
    let mut reader = pending_reader();
    let chunk = Bytes::from_static(b"hello world");
    assert_eq!(reader.on_recv(RecvEvent::Received(chunk)), ReadStep::Continue);
    let mut small = [b'.'; 4];
    assert_eq!(reader.advance(&mut small), ReadStep::Ready(4));
    assert_eq!(&small, b"hell");
    assert_eq!(reader.advance(&mut small), ReadStep::Ready(4));
    assert_eq!(&small, b"o wo");
    // Less than the room is left: the rest of the buffer stays as it was.
    assert_eq!(reader.advance(&mut small), ReadStep::Ready(3));
    assert_eq!(&small, b"rldo");
    assert_eq!(reader.advance(&mut small), ReadStep::StartRecv);
}

#[test]
fn an_empty_buffer_takes_nothing() {
    let mut reader = pending_reader();
    reader.on_recv(RecvEvent::Received(Bytes::from_static(b"ab")));
    assert_eq!(reader.advance(&mut []), ReadStep::Ready(0));
    let mut buf = [0u8; 2];
    assert_eq!(reader.advance(&mut buf), ReadStep::Ready(2));
    assert_eq!(&buf, b"ab");
}

#[test]
fn waiting_goes_on_after_a_lag_and_ends_with_the_stream() {
    let mut reader = pending_reader();
    assert_eq!(reader.on_recv(RecvEvent::Pending), ReadStep::Suspend);
    assert_eq!(reader.advance(&mut [0u8; 1]), ReadStep::PollRecv);
    assert_eq!(reader.on_recv(RecvEvent::Lagged(2)), ReadStep::Continue);
    assert_eq!(reader.advance(&mut [0u8; 1]), ReadStep::StartRecv);
    assert_eq!(reader.on_recv(RecvEvent::Closed), ReadStep::Ready(0));
    assert_eq!(reader.advance(&mut [0u8; 1]), ReadStep::Ready(0));
    assert_eq!(reader.advance(&mut [0u8; 1]), ReadStep::Ready(0));
}

#[test]
fn a_finished_stream_is_at_its_end() {
    let mut channel = BroadcastChannel::new();
    channel.finish();
    let subscription = channel.subscribe();
    assert!(subscription.is_none());
    let mut reader = BroadcastAsyncRead::new(&subscription);
    assert_eq!(reader.advance(&mut [0u8; 1]), ReadStep::Ready(0));
    channel.send(Bytes::from_static(b"late"));
    assert!(channel.subscribe().is_none());
}

#[test]
fn the_pump_sends_what_was_read_and_ends_at_the_end() {
    assert_eq!(BROADCAST_CAPACITY, 256);
    assert_eq!(READ_CHUNK, 8192);
    let mut channel = BroadcastChannel::new();
    let mut rx = channel.subscribe().unwrap().into_receiver();
    let mut other = channel.subscribe().unwrap().into_receiver();
    assert!(channel.pump(b"abcdef", Ok(4)));
    assert_eq!(&rx.try_recv().unwrap()[..], b"abcd");
    assert_eq!(&other.try_recv().unwrap()[..], b"abcd");
    assert!(!channel.pump(b"abcdef", Ok(0)));
    assert!(matches!(rx.try_recv(), Err(broadcast::error::TryRecvError::Closed)));
}

#[test]
fn a_failed_read_ends_the_stream() {
    let mut channel = BroadcastChannel::new();
    let mut rx = channel.subscribe().unwrap().into_receiver();
    let err = std::io::Error::new(std::io::ErrorKind::Other, "broken");
    assert!(!channel.pump(b"", Err(err)));
    assert!(matches!(rx.try_recv(), Err(broadcast::error::TryRecvError::Closed)));
}

#[test]
fn nobody_has_to_listen() {
    let mut channel = BroadcastChannel::new();
    assert!(channel.pump(b"x", Ok(1)));
    let mut rx = channel.subscribe().unwrap().into_receiver();
    assert!(matches!(rx.try_recv(), Err(broadcast::error::TryRecvError::Empty)));
}

#[test]
fn a_reader_that_falls_behind_misses_the_oldest() {
    let mut channel = BroadcastChannel::new();
    let mut rx = channel.subscribe().unwrap().into_receiver();
    for value in 0..258u32 {
        channel.send(Bytes::copy_from_slice(&value.to_be_bytes()));
    }
    assert!(matches!(rx.try_recv(), Err(broadcast::error::TryRecvError::Lagged(2))));
    assert_eq!(&rx.try_recv().unwrap()[..], &2u32.to_be_bytes());
}

#[test]
fn a_stream_is_read_to_its_end() {
    let mut channel = BroadcastChannel::new();
    let subscription = channel.subscribe();
    let mut reader = BroadcastAsyncRead::new(&subscription);
    let mut rx = subscription.unwrap().into_receiver();
    assert!(channel.pump(b"hello ", Ok(6)));
    assert!(channel.pump(b"world", Ok(5)));
    assert!(!channel.pump(b"", Ok(0)));
    let mut all = Vec::new();
    let mut buf = [0u8; 4];
    let mut ends = 0;
    while ends < 3 {
        let step = match reader.advance(&mut buf) {
            ReadStep::PollRecv => reader.on_recv(match rx.try_recv() {
                Ok(bytes) => RecvEvent::Received(bytes),
                Err(broadcast::error::TryRecvError::Closed) => RecvEvent::Closed,
                Err(other) => panic!("{:?}", other),
            }),
            step => step,
        };
        if let ReadStep::Ready(n) = step {
            all.extend_from_slice(&buf[..n]);
            if n == 0 {
                ends += 1;
            } else {
                assert_eq!(ends, 0);
            }
        }
    }
    assert_eq!(&all[..], b"hello world");
}

#[test]
fn writes_are_queued_in_order() {
    let (tx, mut rx) = mpsc::unbounded_channel();
    let mut one = MpscAsyncWrite::new(tx.clone());
    let mut two = MpscAsyncWrite::new(tx);
    assert_eq!(one.write(b"ab"), Ok(2));
    assert_eq!(two.write(b"c"), Ok(1));
    assert_eq!(one.write(b""), Ok(0));
    assert_eq!(&rx.try_recv().unwrap()[..], b"ab");
    assert_eq!(&rx.try_recv().unwrap()[..], b"c");
    assert_eq!(&rx.try_recv().unwrap()[..], b"");
}

#[test]
fn closing_one_handle_leaves_the_others_open() {
    let (tx, mut rx) = mpsc::unbounded_channel();
    let mut one = MpscAsyncWrite::new(tx.clone());
    let mut two = MpscAsyncWrite::new(tx);
    assert_eq!(one.flush(), Ok(()));
    assert_eq!(one.close(), Ok(()));
    assert_eq!(one.write(b"x"), Err(WriteError::HandleClosed));
    assert_eq!(one.close(), Ok(()));
    assert_eq!(two.write(b"y"), Ok(1));
    assert_eq!(&rx.try_recv().unwrap()[..], b"y");
    assert_eq!(
        WriteError::HandleClosed.message(),
        "this stdin handle was already closed"
    );
}

#[test]
fn a_write_without_a_pump_fails() {
    let (tx, rx) = mpsc::unbounded_channel();
    drop(rx);
    let mut handle = MpscAsyncWrite::new(tx);
    assert_eq!(handle.write(b"x"), Err(WriteError::PumpGone));
    assert_eq!(WriteError::PumpGone.message(), "stdin pump thread is gone");
    assert_eq!(write_result(Ok(()), 3), Ok(3));
    assert_eq!(write_result(Err(Bytes::new()), 3), Err(WriteError::PumpGone));
}

#[test]
fn input_is_passed_on_until_it_ends() {
    match stdin_pump_step(PumpEvent::Received(Bytes::from_static(b"q"))) {
        PumpStep::Write(bytes) => assert_eq!(&bytes[..], b"q"),
        _ => panic!("the chunk is lost"),
    }
    assert!(matches!(stdin_pump_step(PumpEvent::Written), PumpStep::Receive));
    assert!(matches!(stdin_pump_step(PumpEvent::WriteFailed), PumpStep::Stop));
    assert!(matches!(stdin_pump_step(PumpEvent::SendersGone), PumpStep::Stop));
}

#[test]
fn resident_memory_is_read_from_the_report() {
    let report = "Name:\tcat\nVmPeak:\t 9999 kB\nVmRSS:\t    3072 kB\nThreads:\t1\n";
    assert_eq!(read_memory_mb(report), Some(3));
    assert_eq!(read_memory_mb("VmRSS: 1023 kB"), Some(0));
    assert_eq!(read_memory_mb("VmRSS:+2048\r\nVmRSS: 4096"), Some(2));
    assert_eq!(read_memory_mb("VmRSS:\u{3000}1024"), Some(1));
    // Cut to thirty two bits: u64::MAX kilobytes.
    assert_eq!(read_memory_mb("VmRSS: 18446744073709551615 kB"), Some(u32::MAX));
}

#[test]
fn a_report_that_does_not_tell_it_gives_nothing() {
    assert_eq!(read_memory_mb(""), None);
    assert_eq!(read_memory_mb("Name: cat\n"), None);
    assert_eq!(read_memory_mb(" VmRSS: 1024"), None);
    assert_eq!(read_memory_mb("VmRS"), None);
    // The first such line decides, whatever follows it.
    assert_eq!(read_memory_mb("VmRSS:\nVmRSS: 1024"), None);
    assert_eq!(read_memory_mb("VmRSS: -1 kB"), None);
    assert_eq!(read_memory_mb("VmRSS: + kB"), None);
    assert_eq!(read_memory_mb("VmRSS: 12a kB"), None);
    assert_eq!(read_memory_mb("VmRSS: 18446744073709551616 kB"), None);
}
