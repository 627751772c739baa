use rpcnet::pool::{new, Pool};

#[test]
fn empty_pool_gives_default() {
    let mut p: Pool<u32> = new();
    assert_eq!(0, p.get());
}

#[test]
fn pool_is_last_in_first_out() {
    let mut p: Pool<u32> = new();
    p.put(1);
    p.put(2);
    assert_eq!(2, p.get());
    assert_eq!(1, p.get());
    assert_eq!(0, p.get());
}

#[test]
fn full_pool_drops_values() {
    let mut p: Pool<u32> = new::<u32>().with_max_buf_num(1);
    p.put(5);
    p.put(6);
    assert_eq!(5, p.get());
    assert_eq!(0, p.get());
}

#[test]
fn pool_of_buffers() {
    let mut p: Pool<rpcnet::buffer::MsgBuffer> = new();
    let mut b = p.get();
    b.write(&[1]);
    p.put(b);
    let b2 = p.get();
    assert_eq!(&[1], b2.bytes());
}
