use rpcnet::err::NetError;
use rpcnet::http_error::HttpError;

#[test]
fn net_error_texts() {
    assert_eq!("IoError: disk", NetError::IoError("disk".to_string()).to_string());
    assert_eq!("abc", NetError::Custom("abc".to_string()).to_string());
    assert_eq!("tcp read timeout", NetError::TcpReadTimeout.to_string());
    assert_eq!("tcp disconnected", NetError::TcpDisconnected.to_string());
    assert_eq!("UknowError", NetError::UknowError.to_string());
    assert_eq!("1.2.3.4 Address error", NetError::AddressError("1.2.3.4".to_string()).to_string());
    assert_eq!("package is too large", NetError::LargePackage.to_string());
    assert_eq!("ShutdownServer,reason: bye", NetError::ShutdownServer("bye".to_string()).to_string());
    assert_eq!("no error", NetError::NoError.to_string());
    assert_eq!("close no error", NetError::Close.to_string());
}

#[test]
fn http_error_texts() {
    assert_eq!("Internal error.", HttpError::Internal("x".to_string()).to_string());
    assert_eq!("Not found.", HttpError::NotFound.to_string());
    assert_eq!("Permission Denied.", HttpError::PermissionDenied.to_string());
    assert_eq!("Invalid argument: n", HttpError::InvalidArgument("n".to_string()).to_string());
    assert_eq!("IoError: e", HttpError::IoError("e".to_string()).to_string());
    assert_eq!("http2 raw not support.", HttpError::Http2RawNotSopport.to_string());
    assert_eq!("c", HttpError::Custom("c".to_string()).to_string());
    assert_eq!("tcp read timeout", HttpError::TcpReadTimeout.to_string());
    assert_eq!("tcp disconnected", HttpError::TcpDisconnected.to_string());
    assert_eq!("UknowError", HttpError::UknowError.to_string());
    assert_eq!("h Address error", HttpError::AddressError("h".to_string()).to_string());
    assert_eq!("Too_Many_Redirects", HttpError::TooManyRedirects.to_string());
    assert_eq!("package is too large", HttpError::LargePackage.to_string());
}

#[test]
fn conversions_carry_text() {
    match NetError::from(HttpError::TooManyRedirects) {
        NetError::Custom(s) => assert_eq!("Too_Many_Redirects", s),
        _ => panic!(),
    }
    match HttpError::from(NetError::TcpDisconnected) {
        HttpError::IoError(s) => assert_eq!("tcp disconnected", s),
        _ => panic!(),
    }
}

#[test]
fn new_with_string_is_custom() {
    match NetError::new_with_string("n".to_string()) {
        NetError::Custom(s) => assert_eq!("n", s),
        _ => panic!(),
    }
    match HttpError::new_with_string("h".to_string()) {
        HttpError::Custom(s) => assert_eq!("h", s),
        _ => panic!(),
    }
}

#[test]
fn converted_errors_display_text() {
    let e = HttpError::AddressError("h".to_string());
    let text = e.to_string();
    assert_eq!(text, NetError::from(e).to_string());
    let n = NetError::LargePackage;
    let text = n.to_string();
    assert_eq!(format!("IoError: {}", text), HttpError::from(n).to_string());
}
