use rpcnet::error::Error;
use rpcnet::msg::{read_one_msg_from_bytes, MaxMsgLen, MsgHeadLen};


#[test]
fn short_input_is_refused() {
    let data = vec![0u8; 24];
    match read_one_msg_from_bytes(&data) {
        Err(Error::errMsgLen) => {}
        _ => panic!("an input shorter than the head is refused"),
    }
}

#[test]
fn smallest_message_decodes() {
    let mut data = vec![2u8, 1];
    data.extend_from_slice(&[0u8; 20]);
    data.extend_from_slice(&[4, 0, 0]);
    data.extend_from_slice(&[7, 1, 0, 0]);
    assert_eq!(29, data.len());
    let (n, m) = read_one_msg_from_bytes(&data).unwrap();
    assert_eq!(4, n);
    assert_eq!(4, m.datalen);
    assert_eq!(258, m.msgNo);
    assert_eq!(263, m.cmd);
    assert_eq!(0, m.ttlTimeout);
    assert_eq!(0, m.local);
    assert_eq!(0, m.remoteID);
    assert_eq!(0, m.queryID);
    assert_eq!(0, m.uid);
}

#[test]
fn missing_data_is_refused() {
    let mut data = vec![0u8; 29];
    data[22] = 10;
    assert!(matches!(read_one_msg_from_bytes(&data), Err(Error::errMsgDataLen)));
    data[22] = 3;
    assert!(matches!(read_one_msg_from_bytes(&data), Err(Error::errMsgDataLen)));
    let head_only = vec![0u8; 25];
    assert!(matches!(read_one_msg_from_bytes(&head_only), Err(Error::errMsgDataLen)));
}

#[test]
fn decodes_little_endian_fields() {
    assert_eq!(25, MsgHeadLen);
    let mut data = vec![0u8; MsgHeadLen + 0x032010];
    data[0..4].copy_from_slice(&[1, 2, 3, 4]);
    data[4..6].copy_from_slice(&[5, 6]);
    data[6..8].copy_from_slice(&[7, 8]);
    data[8..10].copy_from_slice(&[9, 10]);
    data[10..14].copy_from_slice(&[11, 12, 13, 14]);
    data[14..18].copy_from_slice(&[15, 16, 17, 18]);
    data[18..22].copy_from_slice(&[19, 20, 21, 22]);
    data[22..25].copy_from_slice(&[0x10, 0x20, 0x03]);
    data[25..29].copy_from_slice(&[0xaa, 0xbb, 0xcc, 0xdd]);
    let (n, m) = read_one_msg_from_bytes(&data).unwrap();
    assert_eq!(0x032010, n);
    assert_eq!(0x032010, m.datalen);
    assert_eq!(0x04030201, m.msgNo);
    assert_eq!(0x0605, m.ttlTimeout);
    assert_eq!(0x0807, m.local);
    assert_eq!(0x0a09, m.remoteID);
    assert_eq!(0x0e0d0c0b, m.db.transactionNo);
    assert_eq!(0x1211100f, m.queryID);
    assert_eq!(0x16151413, m.uid);
    assert_eq!(0xddccbbaa, m.cmd);
}

#[test]
fn protocol_error_new_with_string() {
    match Error::new_with_string("x".to_string()) {
        Error::Custom(s) => assert_eq!("x", s),
        _ => panic!(),
    }
}

#[test]
fn protocol_error_texts() {
    assert_eq!(Error::new_with_string("bad frame".to_string()).to_string(), "bad frame");
    assert_eq!(Error::UknowError.to_string(), "UknowError");
    assert_eq!(Error::errMsgLen.to_string(), "消息长度不够解析一条msg");
    assert_eq!(Error::errMsgDataLen.to_string(), "消息长度不够解析data");
}

#[test]
fn largest_message_length() {
    assert_eq!((2usize << 24) - 1 - MsgHeadLen, MaxMsgLen);
}
