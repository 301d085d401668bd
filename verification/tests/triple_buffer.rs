use waitfree_sync::triple_buffer::triple_buffer;

#[test]
fn triple_buffer_smoke() {
    let (mut w, mut r) = triple_buffer();
    w.write(vec![0; 15]);

    assert_eq!(w.try_read(), Some(vec![0; 15]));
    assert_eq!(r.try_read(), Some(vec![0; 15]));
}

#[test]
fn test_read_none() {
    let (mut w, mut r) = triple_buffer();
    assert_eq!(r.try_read(), None);
    w.write(vec![0; 15]);
    assert_eq!(r.try_read(), Some(vec![0; 15]));
}

#[test]
fn test_read_after_write() {
    let (mut w, mut r) = triple_buffer::<i32>();
    w.write(42);
    assert_eq!(r.try_read(), Some(42));
    assert_eq!(w.try_read(), Some(42));
}

#[test]
fn test_collapses_intermediate_writes() {
    let (mut w, mut r) = triple_buffer::<i32>();
    w.write(1);
    w.write(2);
    w.write(3);
    assert_eq!(r.try_read(), Some(3));
}

#[test]
fn test_repeated_read_stability() {
    let (mut w, mut r) = triple_buffer::<i32>();
    w.write(7);
    assert_eq!(r.try_read(), Some(7));
    assert_eq!(r.try_read(), Some(7));
    assert_eq!(r.try_read(), Some(7));
}

#[test]
fn test_drop_writer_reader_keeps_value() {
    let (mut w, mut r) = triple_buffer::<String>();
    w.write(String::from("last"));
    assert_eq!(r.try_read(), Some(String::from("last")));
    drop(w);
    assert_eq!(r.try_read(), Some(String::from("last")));
}
