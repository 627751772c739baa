//! A small TCP server toolkit: a growable receive buffer, an object pool,
//! an HTTP/1 request-head parser, a binary message decoder and the
//! decisions that drive a connection, all with their contracts proved.

pub mod err;
pub mod http_error;
pub mod buffer;
pub mod pool;
pub mod error;
pub mod msg;
pub mod scan;
pub mod text;
pub mod headers;
pub mod timing;
pub mod http1;
pub mod response;
pub mod conn;
pub mod server;
pub mod codec;
pub mod handler;
