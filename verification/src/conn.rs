use vstd::prelude::*;
use crate::err::{NetError, net_error_text};

verus! {

/// The error that ends a read or a write cut short by a close request:
/// a close with a reason carries it, any other close is `Close`.
pub fn close_signal_error(signal: Option<Option<String>>) -> (e: NetError)
    ensures
        signal matches Some(Some(r)) ==> e == NetError::Custom(r),
        !(signal matches Some(Some(_))) ==> e == NetError::Close,
{
    match signal {
        Some(Some(reason)) => NetError::Custom(reason),
        _ => NetError::Close,
    }
}

/// The reason a connection loop hands back when it is asked to close.
pub fn close_reason(signal: Option<Option<String>>) -> (reason: Option<String>)
    ensures
        signal matches Some(r) ==> reason == r,
        signal is None ==> reason is None,
{
    match signal {
        Some(r) => r,
        None => None,
    }
}

/// Progress of a write: a write of 0 bytes means the peer is gone.
pub fn write_progress(written: usize, size: usize) -> (res: Result<usize, NetError>)
    requires
        written + size <= usize::MAX,
    ensures
        size == 0 ==> res matches Err(NetError::TcpDisconnected),
        size > 0 ==> res == Ok::<usize, NetError>((written + size) as usize),
{
    if size == 0 {
        Err(NetError::TcpDisconnected)
    } else {
        Ok(written + size)
    }
}

/// The error that asks the server to shut down, with the given reason or
/// an empty one.
pub fn shutdown_error(reason: Option<String>) -> (e: NetError)
    ensures
        reason matches Some(r) ==> (e matches NetError::ShutdownServer(s) && s@ == r@),
        reason is None ==> (e matches NetError::ShutdownServer(s) && s@ == Seq::<char>::empty()),
{
    match reason {
        Some(r) => NetError::ShutdownServer(r),
        None => NetError::ShutdownServer(String::new()),
    }
}

/// The error a server stops with when its shutdown channel yields `e`: the
/// error sent, or an empty shutdown when the channel closed.
pub fn exit_outcome(e: Option<NetError>) -> (res: NetError)
    ensures
        e matches Some(x) ==> res == x,
        e is None ==> (res matches NetError::ShutdownServer(s) && s@ == Seq::<char>::empty()),
{
    match e {
        Some(x) => x,
        None => NetError::ShutdownServer(String::new()),
    }
}

/// What a finished connection loop leaves: the reason handed to the close
/// callback, and the error to pass on to the server when the loop ended
/// with a shutdown request. A loop that ended with an error gives the
/// error's text as the reason.
pub fn close_outcome(res: Result<Option<String>, NetError>) -> (out: (Option<String>, Option<NetError>))
    ensures
        res matches Ok(r) ==> out.0 == r && out.1 is None,
        res matches Err(e) ==> {
            &&& out.0 matches Some(t) && t@ == net_error_text(e)
            &&& e is ShutdownServer ==> out.1 == Some(e)
            &&& !(e is ShutdownServer) ==> out.1 is None
        },
{
    match res {
        Ok(r) => (r, None),
        Err(e) => {
            let text = e.to_string();
            match e {
                NetError::ShutdownServer(_) => (Some(text), Some(e)),
                _ => (Some(text), None),
            }
        },
    }
}

/// Whether a deadline, in nanoseconds since the epoch (0 meaning none), has
/// passed at `now`.
pub fn deadline_passed(deadline: u128, now: u128) -> (passed: bool)
    ensures
        passed == (deadline != 0 && now > deadline),
{
    deadline != 0 && now > deadline
}

} // verus!
