use rpcnet::conn::{close_outcome, close_reason, close_signal_error, deadline_passed, exit_outcome, shutdown_error, write_progress};
use rpcnet::err::NetError;
use rpcnet::server::Server;
use rpcnet::codec::{rpcNode, Codec};
use rpcnet::handler::Handler;
use std::time::Duration;

#[test]
fn close_signals() {
    assert!(matches!(close_signal_error(Some(Some("r".to_string()))), NetError::Custom(s) if s == "r"));
    assert!(matches!(close_signal_error(Some(None)), NetError::Close));
    assert!(matches!(close_signal_error(None), NetError::Close));
    assert_eq!(Some("r".to_string()), close_reason(Some(Some("r".to_string()))));
    assert_eq!(None, close_reason(Some(None)));
    assert_eq!(None, close_reason(None));
}

#[test]
fn write_progress_steps() {
    assert_eq!(7, write_progress(3, 4).unwrap());
    assert!(matches!(write_progress(3, 0), Err(NetError::TcpDisconnected)));
}

#[test]
fn shutdown_reasons() {
    assert!(matches!(shutdown_error(Some("x".to_string())), NetError::ShutdownServer(s) if s == "x"));
    assert!(matches!(shutdown_error(None), NetError::ShutdownServer(s) if s.is_empty()));
    assert!(matches!(exit_outcome(Some(NetError::Close)), NetError::Close));
    assert!(matches!(exit_outcome(None), NetError::ShutdownServer(s) if s.is_empty()));
}

#[test]
fn deadlines() {
    assert!(!deadline_passed(0, 100));
    assert!(!deadline_passed(100, 100));
    assert!(deadline_passed(100, 101));
}

#[test]
fn server_settings() {
    let s = Server::new_with_codec("0.0.0.0:81", Codec {}, Handler {});
    assert_eq!("0.0.0.0:81", s.addr);
    assert_eq!(u32::MAX as usize, s.max_package_size);
    assert_eq!(Duration::from_secs(60), s.readtimeout);
    assert_eq!(Duration::from_secs(60), s.writetimeout);
    assert_eq!(64 * 1024, s.max_buf_size);
    assert_eq!(8 * 1024, s.default_buf_size);
    assert_eq!(128, s.buf_num);
    let mut s = s
        .with_buf_pool_num(20)
        .with_default_buf_size(20)
        .with_max_buf_size(10)
        .with_readtimeout(Duration::from_secs(10))
        .with_writetimeout(Duration::from_secs(11))
        .with_max_package_size(99);
    assert_eq!(20, s.buf_num);
    assert_eq!(99, s.max_package_size);
    assert_eq!(Duration::from_secs(10), s.readtimeout);
    assert_eq!(Duration::from_secs(11), s.writetimeout);
    s.clamp_buf_sizes();
    assert_eq!(10, s.default_buf_size);
    let _node = rpcNode {}.clone();
}

#[test]
fn close_outcomes() {
    let (reason, forward) = close_outcome(Ok(Some("bye".to_string())));
    assert_eq!(reason, Some("bye".to_string()));
    assert!(forward.is_none());

    let (reason, forward) = close_outcome(Ok(None));
    assert_eq!(reason, None);
    assert!(forward.is_none());

    let (reason, forward) = close_outcome(Err(NetError::TcpDisconnected));
    assert_eq!(reason, Some("tcp disconnected".to_string()));
    assert!(forward.is_none());

    let (reason, forward) = close_outcome(Err(NetError::ShutdownServer("stop".to_string())));
    assert_eq!(reason, Some("ShutdownServer,reason: stop".to_string()));
    assert!(matches!(forward, Some(NetError::ShutdownServer(s)) if s == "stop"));
}
