use serial_bridge::bridge::{closed_message, connected_message, Bridge, ConnectError, InboundStep};
use serial_bridge::config::PortConfig;
use serial_bridge::scrollback::SCROLLBACK_MAX;
use serial_bridge::session::{client_action, relay_action, ClientAction, ClientFrame, RecvOutcome, RelayAction};

fn test_config(port: &str) -> PortConfig {
    PortConfig {
        port: port.to_string(),
        baud_rate: 9600,
        data_bits: 8,
        stop_bits: 1,
        parity: "none".to_string(),
    }
}

/// A stand-in for the outbound queue: what was written to the device.
type Loopback = std::cell::RefCell<Vec<Vec<u8>>>;

fn open_bridge(port: &str) -> Bridge<Loopback> {
    let mut b: Bridge<Loopback> = Bridge::new(SCROLLBACK_MAX);
    assert!(b.connect(test_config(port), Ok(Loopback::default())).is_ok());
    b
}

fn ingest_bytes<H>(b: &mut Bridge<H>, bytes: &[u8]) -> InboundStep {
    let mut buf = [0u8; 1024];
    buf[..bytes.len()].copy_from_slice(bytes);
    b.ingest(Ok(bytes.len()), &buf)
}

#[test]
fn open_then_close_lifecycle() {
    let mut b: Bridge<Loopback> = Bridge::new(16);
    assert!(!b.is_open());
    assert!(b.connect(test_config("A"), Ok(Loopback::default())).is_ok());
    assert!(b.is_open());
    let closed = b.disconnect();
    assert_eq!(closed.map(|c| c.config.port), Some("A".to_string()));
    assert!(!b.is_open());
    // closing again is a no-op
    assert!(b.disconnect().is_none());
    assert!(!b.is_open());
    // a new open succeeds after close
    assert!(b.connect(test_config("B"), Ok(Loopback::default())).is_ok());
    assert_eq!(b.status().port, Some("B".to_string()));
}

#[test]
fn failed_open_leaves_nothing_open() {
    let mut b: Bridge<Loopback> = Bridge::new(16);
    match b.connect(test_config("X"), Err("no such device".to_string())) {
        Err(ConnectError::OpenFailed(e)) => assert_eq!(e, "no such device"),
        other => panic!("unexpected {:?}", other.is_ok()),
    }
    assert!(!b.is_open());
    assert!(!b.status().connected);
}

#[test]
fn loopback_write_reaches_device() {
    let b = open_bridge("COM-TEST");
    match client_action(ClientFrame::Binary(b"AT\r\n".to_vec())) {
        ClientAction::Send(bytes) => {
            let q = b.outbound().expect("open");
            q.borrow_mut().push(bytes);
        }
        _ => panic!("expected send"),
    }
    let q = b.outbound().unwrap();
    assert_eq!(q.borrow().clone(), vec![b"AT\r\n".to_vec()]);
    let st = b.status();
    assert!(st.connected);
    let cfg = st.config.unwrap();
    assert_eq!(cfg.baud_rate, 9600);
    assert_eq!(cfg.data_bits, 8);
    assert_eq!(cfg.stop_bits, 1);
    assert_eq!(cfg.parity, "none");
}

#[test]
fn late_client_gets_replay() {
    let mut b = open_bridge("COM-TEST");
    match ingest_bytes(&mut b, b"OK\r\n") {
        InboundStep::Publish(d) => assert_eq!(d, b"OK\r\n".to_vec()),
        _ => panic!("expected publish"),
    }
    let st = b.status();
    assert!(st.connected);
    assert_eq!(st.port, Some("COM-TEST".to_string()));
    assert_eq!(st.config.unwrap().baud_rate, 9600);
    assert_eq!(b.attach(), Some(b"OK\r\n".to_vec()));
}

#[test]
fn close_with_clients_attached_empties_scrollback() {
    let mut b = open_bridge("COM-TEST");
    ingest_bytes(&mut b, b"hello");
    let replays: Vec<Option<Vec<u8>>> = (0..5).map(|_| b.attach()).collect();
    assert!(replays.iter().all(|r| r.as_deref() == Some(&b"hello"[..])));
    assert!(b.disconnect().is_some());
    assert_eq!(b.attach(), None);
    // every session's relay ends without error once the channel closes
    for _ in 0..5 {
        assert!(matches!(relay_action(RecvOutcome::Closed), RelayAction::Stop));
    }
}

#[test]
fn second_open_conflicts_and_first_stays() {
    let mut b = open_bridge("COM-TEST");
    ingest_bytes(&mut b, b"abc");
    let r = b.connect(test_config("OTHER"), Ok(Loopback::default()));
    assert!(matches!(r, Err(ConnectError::Conflict)));
    let st = b.status();
    assert!(st.connected);
    assert_eq!(st.port, Some("COM-TEST".to_string()));
    assert_eq!(b.attach(), Some(b"abc".to_vec()));
    assert!(b.outbound().is_some());
}

#[test]
fn end_of_stream_and_read_error_stop() {
    let mut b = open_bridge("A");
    assert!(matches!(ingest_bytes(&mut b, b""), InboundStep::EndOfStream));
    match b.ingest(Err("gone".to_string()), &[0u8; 4]) {
        InboundStep::Failed(e) => assert_eq!(e, "gone"),
        _ => panic!("expected failure"),
    }
    assert_eq!(b.attach(), None);
}

#[test]
fn scrollback_keeps_most_recent_bytes() {
    let mut b: Bridge<Loopback> = Bridge::new(4);
    ingest_bytes(&mut b, b"abc");
    ingest_bytes(&mut b, b"def");
    assert_eq!(b.attach(), Some(b"cdef".to_vec()));
    ingest_bytes(&mut b, b"0123456789");
    assert_eq!(b.attach(), Some(b"6789".to_vec()));
}

#[test]
fn reopen_starts_with_empty_scrollback() {
    let mut b = open_bridge("A");
    ingest_bytes(&mut b, b"old");
    b.disconnect();
    assert!(b.connect(test_config("A"), Ok(Loopback::default())).is_ok());
    assert_eq!(b.attach(), None);
}

#[test]
fn reply_texts() {
    assert_eq!(connected_message("COM3"), "Connected to COM3");
    assert_eq!(closed_message(Some("COM3")), "Disconnected from COM3");
    assert_eq!(closed_message(None), "Not connected");
    assert_eq!(ConnectError::Conflict.message(), "Already connected. Disconnect first.");
    assert_eq!(
        ConnectError::OpenFailed("busy".to_string()).message(),
        "Failed to open port: busy"
    );
}
