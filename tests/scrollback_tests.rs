use serial_bridge::scrollback::{Scrollback, SCROLLBACK_MAX};

#[test]
fn buffer_never_exceeds_cap() {
    let mut s = Scrollback::new(3);
    s.append(b"ab");
    assert_eq!(s.contents(), b"ab".to_vec());
    s.append(b"cde");
    assert_eq!(s.len(), 3);
    assert_eq!(s.contents(), b"cde".to_vec());
    s.append(b"f");
    assert_eq!(s.contents(), b"def".to_vec());
}

#[test]
fn chunked_and_whole_appends_agree() {
    let mut a = Scrollback::new(5);
    let mut b = Scrollback::new(5);
    a.append(b"hello ");
    a.append(b"world");
    b.append(b"hello world");
    assert_eq!(a.contents(), b.contents());
    assert_eq!(a.contents(), b"world".to_vec());
}

#[test]
fn default_capacity_holds_exactly_cap() {
    let mut s = Scrollback::new(SCROLLBACK_MAX);
    assert_eq!(s.cap(), 128 * 1024);
    let chunk = vec![7u8; 1024];
    for _ in 0..130 {
        s.append(&chunk);
    }
    s.append(b"end");
    assert_eq!(s.len(), SCROLLBACK_MAX);
    assert!(s.contents().ends_with(b"end"));
}

#[test]
fn zero_cap_keeps_nothing_and_clear_empties() {
    let mut z = Scrollback::new(0);
    z.append(b"xyz");
    assert!(z.is_empty());
    let mut s = Scrollback::new(8);
    s.append(b"data");
    s.clear();
    assert!(s.is_empty());
    assert_eq!(s.contents(), Vec::<u8>::new());
}
