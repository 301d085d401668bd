use waitfree_sync::spsc::is_power_of_two;
use waitfree_sync::spsc::spsc;
use waitfree_sync::spsc::NoSpaceLeftError;

#[test]
fn spsc_smoke() {
    let (mut w, mut r) = spsc(4);
    w.try_send(vec![0; 15]).unwrap();
    w.try_send(vec![0; 16]).unwrap();
    w.try_send(vec![0; 17]).unwrap();
    w.try_send(vec![0; 18]).unwrap();

    assert_eq!(r.try_recv(), Some(vec![0; 15]));
    assert_eq!(r.try_recv(), Some(vec![0; 16]));
    assert_eq!(r.try_recv(), Some(vec![0; 17]));
    assert_eq!(r.try_recv(), Some(vec![0; 18]));
}

#[test]
fn test_is_power_of_two() {
    assert!(!is_power_of_two(0));
    assert!(!is_power_of_two(1));
    assert!(is_power_of_two(2));
    assert!(!is_power_of_two(3));
    assert!(is_power_of_two(4));
    assert!(!is_power_of_two(5));
    assert!(!is_power_of_two(6));
    assert!(!is_power_of_two(7));
    assert!(is_power_of_two(8));
    assert!(!is_power_of_two(9));

    assert!(!is_power_of_two(15));
    assert!(is_power_of_two(16));
    assert!(!is_power_of_two(17));

    assert!(!is_power_of_two(31));
    assert!(is_power_of_two(32));
    assert!(!is_power_of_two(33));
}

#[test]
fn test_full_empty() {
    let (mut write, mut read) = spsc::<i32>(4);
    assert_eq!(write.try_send(1), Ok(()));
    assert_eq!(write.try_send(2), Ok(()));
    assert_eq!(write.try_send(3), Ok(()));
    assert_eq!(write.try_send(4), Ok(()));
    assert_eq!(write.try_send(5), Err(NoSpaceLeftError(5)));
    assert_eq!(read.try_recv(), Some(1));
    assert_eq!(write.try_send(6), Ok(()));
    assert_eq!(read.try_recv(), Some(2));
    assert_eq!(read.try_recv(), Some(3));
    assert_eq!(read.try_recv(), Some(4));
    assert_eq!(read.try_recv(), Some(6));
    assert_eq!(read.try_recv(), None);
}

#[test]
fn test_drop_one_side() {
    let (mut write, read) = spsc::<i32>(4);
    drop(read);
    assert_eq!(write.try_send(1), Ok(()));
    assert_eq!(write.try_send(2), Ok(()));
    assert_eq!(write.try_send(3), Ok(()));
    assert_eq!(write.try_send(4), Ok(()));
    assert_eq!(write.try_send(5), Err(NoSpaceLeftError(5)));
}

#[test]
fn test_peek() {
    let (mut w, mut r) = spsc(4);
    w.try_send(vec![0; 15]).unwrap();
    w.try_send(vec![0; 16]).unwrap();
    w.try_send(vec![0; 17]).unwrap();
    w.try_send(vec![0; 18]).unwrap();

    assert_eq!(r.peek(), Some(vec![0; 15]));
    assert_eq!(r.try_recv(), Some(vec![0; 15]));
    assert_eq!(r.peek(), Some(vec![0; 16]));
    assert_eq!(r.try_recv(), Some(vec![0; 16]));
    assert_eq!(r.peek(), Some(vec![0; 17]));
    assert_eq!(r.try_recv(), Some(vec![0; 17]));
    assert_eq!(r.peek(), Some(vec![0; 18]));
    assert_eq!(r.peek(), Some(vec![0; 18]));
    assert_eq!(r.peek(), Some(vec![0; 18]));
    assert_eq!(r.try_recv(), Some(vec![0; 18]));
    assert_eq!(r.peek(), None);
}

#[test]
fn test_drop_sender_receiver_drains() {
    let (mut write, mut read) = spsc::<String>(8);
    assert_eq!(write.try_send(String::from("alpha")), Ok(()));
    assert_eq!(write.try_send(String::from("beta")), Ok(()));
    drop(write);
    assert_eq!(read.try_recv(), Some(String::from("alpha")));
    assert_eq!(read.try_recv(), Some(String::from("beta")));
    assert_eq!(read.try_recv(), None);
}

#[test]
fn test_capacity_query() {
    let (w2, r2) = spsc::<u8>(2);
    assert_eq!(w2.capacity(), 2);
    assert_eq!(r2.capacity(), 2);
    let (w4, r4) = spsc::<u8>(4);
    assert_eq!(w4.capacity(), 4);
    assert_eq!(r4.capacity(), 4);
    let (w8, r8) = spsc::<u8>(8);
    assert_eq!(w8.capacity(), 8);
    assert_eq!(r8.capacity(), 8);
    let (w16, r16) = spsc::<u8>(16);
    assert_eq!(w16.capacity(), 16);
    assert_eq!(r16.capacity(), 16);
    let (w32, r32) = spsc::<u8>(32);
    assert_eq!(w32.capacity(), 32);
    assert_eq!(r32.capacity(), 32);
}

#[test]
fn test_fifo_interleaved() {
    let (mut write, mut read) = spsc::<u64>(8);
    let mut sent: u64 = 0;
    let mut expected: u64 = 0;
    // Interleave bursts of sends with receives; every value must come out
    // in the exact order it went in.
    for round in 0..50 {
        for _ in 0..(round % 5) {
            if write.try_send(sent).is_ok() {
                sent += 1;
            }
        }
        for _ in 0..(round % 3) {
            if let Some(v) = read.try_recv() {
                assert_eq!(v, expected);
                expected += 1;
            }
        }
    }
    while let Some(v) = read.try_recv() {
        assert_eq!(v, expected);
        expected += 1;
    }
    assert_eq!(expected, sent);
}
