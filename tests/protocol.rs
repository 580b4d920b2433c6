use nestri_server::registry::Registry;
use nestri_server::session::{
    Lifecycle, ReadEvent, ReadStep, Session, SessionError, Spawn, WriteStep, QUEUE_CAPACITY,
};
use nestri_server::frame::{decode_frame, encode_frame, FrameError};

fn running(capacity: usize) -> Session {
    let mut s = Session::new(capacity);
    assert_eq!(s.restart(), Spawn { read: true, write: true });
    s
}

fn sent(step: WriteStep) -> Vec<u8> {
    match step {
        WriteStep::Send(p) => p,
        other => panic!("expected a payload, got {:?}", other),
    }
}

#[test]
fn new_session_is_uninitialized() {
    let mut s = Session::new(QUEUE_CAPACITY);
    assert_eq!(s.lifecycle(), Lifecycle::Uninitialized);
    assert_eq!(s.enqueue(vec![1]), Err(SessionError::NotRunning));
    assert_eq!(s.queued(), 0);
}

#[test]
fn restart_spawns_once() {
    let mut s = running(4);
    assert_eq!(s.lifecycle(), Lifecycle::Running);
    assert_eq!(s.restart(), Spawn { read: false, write: false });
    assert_eq!(s.restart(), Spawn { read: false, write: false });
    assert_eq!(s.lifecycle(), Lifecycle::Running);
}

#[test]
fn restart_while_running_keeps_queue() {
    let mut s = running(4);
    s.enqueue(vec![1]).unwrap();
    assert_eq!(s.restart(), Spawn { read: false, write: false });
    assert_eq!(s.queued(), 1);
    assert_eq!(sent(s.next_outbound()), vec![1u8]);
}

#[test]
fn full_queue_rejects() {
    let mut s = running(2);
    assert_eq!(s.enqueue(vec![1]), Ok(()));
    assert_eq!(s.enqueue(vec![2]), Ok(()));
    assert_eq!(s.enqueue(vec![3]), Err(SessionError::QueueFull));
    assert_eq!(s.queued(), 2);
    assert_eq!(sent(s.next_outbound()), vec![1u8]);
    assert_eq!(s.enqueue(vec![4]), Ok(()));
    assert_eq!(s.queued(), 2);
}

#[test]
fn default_capacity_is_bounded() {
    let mut s = running(QUEUE_CAPACITY);
    for i in 0..QUEUE_CAPACITY {
        assert_eq!(s.enqueue(vec![(i % 256) as u8]), Ok(()));
    }
    assert_eq!(s.enqueue(vec![0]), Err(SessionError::QueueFull));
    assert_eq!(s.queued(), 1000);
}

#[test]
fn messages_leave_in_order() {
    let mut s = running(8);
    s.enqueue(b"first".to_vec()).unwrap();
    s.enqueue(b"second".to_vec()).unwrap();
    assert_eq!(sent(s.next_outbound()), b"first".to_vec());
    assert_eq!(sent(s.next_outbound()), b"second".to_vec());
    assert!(matches!(s.next_outbound(), WriteStep::Wait));
}

#[test]
fn shutdown_drains_then_exits() {
    let mut s = running(8);
    s.enqueue(vec![1]).unwrap();
    s.shutdown();
    assert_eq!(s.enqueue(vec![2]), Err(SessionError::NotRunning));
    assert_eq!(sent(s.next_outbound()), vec![1u8]);
    assert!(matches!(s.next_outbound(), WriteStep::Exit));
    assert_eq!(s.lifecycle(), Lifecycle::Degraded);
    assert_eq!(s.enqueue(vec![3]), Err(SessionError::NotRunning));
}

#[test]
fn restart_after_both_loops_end() {
    let reg: Registry<u32> = Registry::new();
    let mut s = running(8);
    s.shutdown();
    assert!(matches!(s.next_outbound(), WriteStep::Exit));
    assert!(matches!(s.read_step(ReadEvent::Failed, &reg), ReadStep::Stop));
    assert_eq!(s.lifecycle(), Lifecycle::Stopped);
    assert_eq!(s.restart(), Spawn { read: true, write: true });
    assert_eq!(s.lifecycle(), Lifecycle::Running);
    assert_eq!(s.queued(), 0);
    assert_eq!(s.enqueue(vec![5]), Ok(()));
}

#[test]
fn restart_spawns_only_the_dead_loop() {
    let reg: Registry<u32> = Registry::new();
    let mut s = running(8);
    s.enqueue(vec![1]).unwrap();
    assert!(matches!(s.read_step(ReadEvent::Failed, &reg), ReadStep::Stop));
    assert_eq!(s.lifecycle(), Lifecycle::Degraded);
    assert_eq!(s.restart(), Spawn { read: true, write: false });
    assert_eq!(s.queued(), 1);
}

#[test]
fn ping_is_routed_with_raw_bytes() {
    let mut reg: Registry<&'static str> = Registry::new();
    reg.insert("ping".to_string(), "ping handler");
    let mut s = running(8);
    let raw = br#"{"payload_type":"ping"}"#.to_vec();
    match s.read_step(ReadEvent::Decoded("ping".to_string(), raw.clone()), &reg) {
        ReadStep::Dispatch(p) => assert_eq!(p, raw),
        other => panic!("expected a dispatch, got {:?}", other),
    }
    assert_eq!(reg.get(&"ping".to_string()), Some(&"ping handler"));
    assert_eq!(s.lifecycle(), Lifecycle::Running);
}

#[test]
fn unregistered_kind_is_dropped() {
    let mut reg: Registry<u8> = Registry::new();
    reg.insert("ping".to_string(), 1);
    let mut s = running(8);
    let step = s.read_step(ReadEvent::Decoded("pong".to_string(), vec![1, 2]), &reg);
    assert!(matches!(step, ReadStep::Unrouted));
    assert_eq!(s.lifecycle(), Lifecycle::Running);
    let step = s.read_step(ReadEvent::Decoded("ping".to_string(), vec![3]), &reg);
    assert!(matches!(step, ReadStep::Dispatch(ref p) if p == &vec![3u8]));
}

#[test]
fn undecodable_frame_is_skipped() {
    let reg: Registry<u8> = Registry::new();
    let mut s = running(8);
    assert!(matches!(s.read_step(ReadEvent::Undecodable, &reg), ReadStep::Skip));
    assert_eq!(s.lifecycle(), Lifecycle::Running);
}

#[test]
fn reading_goes_on_after_a_dispatch() {
    let mut reg: Registry<u8> = Registry::new();
    reg.insert("boom".to_string(), 1);
    reg.insert("ping".to_string(), 2);
    let mut s = running(8);
    assert!(matches!(
        s.read_step(ReadEvent::Decoded("boom".to_string(), vec![0]), &reg),
        ReadStep::Dispatch(_)
    ));
    assert!(matches!(
        s.read_step(ReadEvent::Decoded("ping".to_string(), vec![1]), &reg),
        ReadStep::Dispatch(ref p) if p == &vec![1u8]
    ));
}

#[test]
fn truncated_stream_stops_reader() {
    let reg: Registry<u8> = Registry::new();
    let mut s = running(8);
    let wire = encode_frame(b"hello").unwrap();
    assert_eq!(decode_frame(&wire[..6]), Err(FrameError::Truncated));
    assert!(matches!(s.read_step(ReadEvent::Failed, &reg), ReadStep::Stop));
    assert_eq!(s.lifecycle(), Lifecycle::Degraded);
}

#[test]
fn registry_overwrites() {
    let mut reg: Registry<u8> = Registry::new();
    assert!(!reg.contains(&"ping".to_string()));
    reg.insert("ping".to_string(), 1);
    reg.insert("pong".to_string(), 2);
    reg.insert("ping".to_string(), 3);
    assert_eq!(reg.get(&"ping".to_string()), Some(&3));
    assert_eq!(reg.get(&"pong".to_string()), Some(&2));
    assert_eq!(reg.get(&"other".to_string()), None);
    assert!(reg.contains(&"pong".to_string()));
}
