use rpcnet::buffer::{new, MsgBuffer, DEFAULT_BUF_SIZE};
use rpcnet::err::NetError;

#[test]
fn it_msgbuffer() {
    let mut msg = MsgBuffer::test_new();

    let b = msg.make(1);
    assert_eq!(1, b.len());
    let b = msg.make(8);
    b[7] = 0;
    assert_eq!(8, b.len());
    assert_eq!(9, msg.len());
    msg.shift(1);
    assert_eq!(1, msg.pos());
    assert_eq!(8, msg.len());
    msg.shift(7);
    msg.write(&[1, 2, 3]);
    assert_eq!(8, msg.pos());
    assert_eq!(&[0, 1, 2, 3], msg.bytes());
    msg.shift(5);
    assert_eq!(0, msg.pos());
    assert_eq!(msg.bytes(), &[]);
    msg.write(&[
        1, 2, 3, 4, 5, 6, 7, 8, 9, 10, 11, 12, 13, 14, 15, 16, 17, 18, 19, 20, 21, 22, 23, 24,
        25, 26, 27, 28, 29, 30, 31,
    ]);
    msg.shift(30);
    assert_eq!(0, msg.pos());
    assert_eq!(&[31], msg.bytes());
    msg.write(&[
        1, 2, 3, 4, 5, 6, 7, 8, 9, 10, 11, 12, 13, 14, 15, 16, 17, 18, 19, 20, 21, 22, 23, 24,
        25, 26, 27, 28, 29, 30, 31,
    ]);
    msg.truncate(2);
    println!("{:?}", msg.bytes());
    msg.write_byte(1);
    msg.write_byte(2);
    assert_eq!(&[31, 1, 1, 2], msg.as_mut_slice());
    msg.truncate(100);
    assert_eq!(&[31, 1, 1, 2], msg.as_slice());
    msg.write_string("123");
    assert_eq!(&[31, 1, 1, 2, 49, 50, 51], msg.as_slice());
}

#[test]
fn new_buffer_is_empty() {
    let b = new();
    assert_eq!(0, b.len());
    assert_eq!(0, b.pos());
    assert!(b.bytes().is_empty());
    let d = MsgBuffer::default();
    assert_eq!(0, d.len());
    assert_eq!(DEFAULT_BUF_SIZE, 8192);
}

#[test]
fn write_appends_after_live_bytes() {
    let mut b = MsgBuffer::test_new();
    b.write(&[1, 2]);
    b.write(&[3]);
    b.write_byte(4);
    b.write_string("ab");
    assert_eq!(&[1, 2, 3, 4, 97, 98], b.bytes());
    assert_eq!(6, b.len());
}

#[test]
fn write_grows_storage_from_front() {
    let mut b = MsgBuffer::test_new();
    b.write(&[9; 20]);
    assert_eq!(20, b.len());
    assert_eq!(&[9; 20], b.as_slice());
}

#[test]
fn growing_with_offset_moves_bytes_but_keeps_pos() {
    // Growing copies the bytes from `pos` on to the front of the new storage
    // and keeps `pos`, so the live window then starts two bytes further on.
    let mut b = MsgBuffer::test_new();
    b.write(&[1, 2, 3, 4, 5]);
    b.shift(2);
    b.write(&[10, 11, 12, 13, 14, 15, 16, 17, 18, 19]);
    assert_eq!(2, b.pos());
    assert_eq!(
        &[5, 0, 0, 10, 11, 12, 13, 14, 15, 16, 17, 18, 19],
        b.bytes()
    );
}

#[test]
fn shift_drops_front_bytes() {
    let mut b = MsgBuffer::test_new();
    b.write(&[1, 2, 3, 4]);
    b.shift(0);
    assert_eq!(&[1, 2, 3, 4], b.bytes());
    b.shift(3);
    assert_eq!(&[4], b.bytes());
    b.shift(1);
    assert_eq!(0, b.len());
    assert_eq!(0, b.pos());
}

#[test]
fn shift_past_threshold_compacts() {
    let mut b = MsgBuffer::test_new();
    b.write(&[7; 20]);
    b.write(&[1, 2]);
    b.shift(20);
    assert_eq!(0, b.pos());
    assert_eq!(&[1, 2], b.bytes());
}

#[test]
fn reset_empties() {
    let mut b = MsgBuffer::test_new();
    b.write(&[1, 2, 3]);
    b.shift(1);
    b.reset();
    assert_eq!(0, b.len());
    assert_eq!(0, b.pos());
}

#[test]
fn truncate_keeps_prefix() {
    let mut b = MsgBuffer::test_new();
    b.write(&[1, 2, 3, 4]);
    b.truncate(2);
    assert_eq!(&[1, 2], b.bytes());
    b.truncate(5);
    assert_eq!(&[1, 2], b.bytes());
    b.truncate(0);
    assert_eq!(0, b.len());
}

#[test]
fn make_hands_out_region_and_extends() {
    let mut b = MsgBuffer::test_new();
    b.write(&[1]);
    let w = b.make(3);
    assert_eq!(3, w.len());
    w.copy_from_slice(&[5, 6, 7]);
    assert_eq!(&[1, 5, 6, 7], b.bytes());
}

#[test]
fn spare_does_not_extend() {
    let mut b = MsgBuffer::test_new();
    b.write(&[1, 2]);
    let w = b.spare(10);
    assert_eq!(10, w.len());
    w[0] = 42;
    assert_eq!(&[1, 2], b.bytes());
    b.buffer_add_size(1, 100).unwrap();
    assert_eq!(&[1, 2, 42], b.bytes());
}

#[test]
fn as_mut_slice_writes_in_place() {
    let mut b = MsgBuffer::test_new();
    b.write(&[1, 2, 3]);
    b.shift(1);
    b.as_mut_slice()[0] = 9;
    assert_eq!(&[9, 3], b.bytes());
}

#[test]
fn string_of_live_bytes() {
    let mut b = MsgBuffer::test_new();
    b.write_string("héllo");
    b.shift(1);
    assert_eq!("éllo", b.string());
}

#[test]
fn buffer_add_size_errors() {
    let mut b = MsgBuffer::test_new();
    b.write(&[1, 2, 3]);
    match b.buffer_add_size(0, 100) {
        Err(NetError::TcpDisconnected) => {}
        _ => panic!("a read of 0 bytes is a disconnect"),
    }
    match b.buffer_add_size(2, 4) {
        Err(NetError::LargePackage) => {}
        _ => panic!("5 live bytes pass a limit of 4"),
    }
    assert_eq!(&[1, 2, 3], b.bytes());
    assert!(b.buffer_add_size(1, 4).is_ok());
    assert_eq!(4, b.len());
}

#[test]
fn buffer_add_size_stops_at_storage_end() {
    let mut b = MsgBuffer::test_new();
    b.write(&[1, 2, 3]);
    assert!(b.buffer_add_size(100, 1000).is_ok());
    assert_eq!(8, b.len());
}
