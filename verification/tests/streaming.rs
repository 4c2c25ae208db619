use click::logs::{
    CancelAfter, ConsoleOutcome, MemByteSink, MemByteSource, NeverCancelled, ScriptedReceiver,
    StreamOutcome, stream_console, stream_to_file,
};
use click::sink::MemSink;

#[test]
fn file_mode_copies_every_byte() {
    let data: Vec<u8> = (0u32..5000).map(|i| (i % 251) as u8).collect();
    let mut src = MemByteSource::new(data.clone());
    let mut file = MemByteSink::new();
    let mut cancel = NeverCancelled;
    let r = stream_to_file(&mut src, &mut file, &mut cancel);
    assert!(matches!(r, Ok(StreamOutcome::Completed)));
    assert_eq!(file.data, data);
}

#[test]
fn file_mode_empty_stream_completes() {
    let mut src = MemByteSource::new(Vec::new());
    let mut file = MemByteSink::new();
    let mut cancel = NeverCancelled;
    let r = stream_to_file(&mut src, &mut file, &mut cancel);
    assert!(matches!(r, Ok(StreamOutcome::Completed)));
    assert!(file.data.is_empty());
}

#[test]
fn file_mode_cancel_truncates_at_chunk_boundary() {
    let data: Vec<u8> = (0u32..5000).map(|i| (i % 251) as u8).collect();
    let mut src = MemByteSource::new(data.clone());
    let mut file = MemByteSink::new();
    // the first poll lets one chunk through; the second poll cancels
    let mut cancel = CancelAfter { polls_left: 1 };
    let r = stream_to_file(&mut src, &mut file, &mut cancel);
    assert!(matches!(r, Ok(StreamOutcome::Cancelled)));
    // exactly the first fully-written chunk, uncorrupted
    assert_eq!(file.data.len(), 1024);
    assert_eq!(&file.data[..], &data[..1024]);
}

#[test]
fn file_mode_immediate_cancel_writes_nothing() {
    let data: Vec<u8> = vec![1, 2, 3];
    let mut src = MemByteSource::new(data);
    let mut file = MemByteSink::new();
    let mut cancel = CancelAfter { polls_left: 0 };
    let r = stream_to_file(&mut src, &mut file, &mut cancel);
    assert!(matches!(r, Ok(StreamOutcome::Cancelled)));
    assert!(file.data.is_empty());
}

fn lines_script(lines: &[&str]) -> Vec<Option<String>> {
    lines.iter().map(|l| Some(format!("{}\n", l))).collect()
}

#[test]
fn console_mode_delivers_all_lines_in_order() {
    let script = lines_script(&["one", "two", "three"]);
    let mut rx = ScriptedReceiver::new(script);
    let mut cancel = NeverCancelled;
    let mut out = MemSink::new();
    let r = stream_console(&mut rx, &mut cancel, &mut out);
    assert!(matches!(r, ConsoleOutcome::Completed));
    assert_eq!(out.text(), "one\ntwo\nthree\n");
}

#[test]
fn console_mode_timeouts_deliver_nothing_extra() {
    let script = vec![
        Some(String::from("one\n")),
        None,
        None,
        Some(String::from("two\n")),
    ];
    let mut rx = ScriptedReceiver::new(script);
    let mut cancel = NeverCancelled;
    let mut out = MemSink::new();
    let r = stream_console(&mut rx, &mut cancel, &mut out);
    assert!(matches!(r, ConsoleOutcome::Completed));
    assert_eq!(out.text(), "one\ntwo\n");
}

#[test]
fn console_mode_cancel_stops_after_k_lines() {
    let script = lines_script(&["one", "two", "three", "four"]);
    let mut rx = ScriptedReceiver::new(script);
    // two polls pass, so exactly two lines are consumed before the
    // cancellation is noticed at the next poll
    let mut cancel = CancelAfter { polls_left: 2 };
    let mut out = MemSink::new();
    let r = stream_console(&mut rx, &mut cancel, &mut out);
    assert!(matches!(r, ConsoleOutcome::Cancelled));
    assert_eq!(out.text(), "one\ntwo\n");
}

#[test]
fn console_mode_empty_channel_completes() {
    let mut rx = ScriptedReceiver::new(Vec::new());
    let mut cancel = NeverCancelled;
    let mut out = MemSink::new();
    let r = stream_console(&mut rx, &mut cancel, &mut out);
    assert!(matches!(r, ConsoleOutcome::Completed));
    assert_eq!(out.text(), "");
}

// stands for a transport that fails while data is still owed
struct ErrSource;

impl click::logs::ByteSource for ErrSource {
    fn read_chunk(&mut self, _max: usize) -> Result<Vec<u8>, String> {
        Err(String::from("connection reset"))
    }
}

// stands for a disk that fails on the first write
struct ErrSink;

impl click::logs::ByteSink for ErrSink {
    fn write_all(&mut self, _chunk: &Vec<u8>) -> Result<(), String> {
        Err(String::from("disk full"))
    }
}

#[test]
fn transport_errors_surface_verbatim() {
    let mut src = ErrSource;
    let mut file = MemByteSink::new();
    let mut cancel = NeverCancelled;
    match stream_to_file(&mut src, &mut file, &mut cancel) {
        Err(click::errors::LogError::Transport(m)) => assert_eq!(m, "connection reset"),
        _ => panic!("expected a transport error"),
    }
}

#[test]
fn io_errors_surface_verbatim() {
    let mut src = MemByteSource::new(vec![1, 2, 3]);
    let mut sink = ErrSink;
    let mut cancel = NeverCancelled;
    match stream_to_file(&mut src, &mut sink, &mut cancel) {
        Err(click::errors::LogError::Io(m)) => assert_eq!(m, "disk full"),
        _ => panic!("expected an io error"),
    }
}
