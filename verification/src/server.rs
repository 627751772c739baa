use vstd::prelude::*;
use std::time::Duration;
use crate::timing::{secs_duration, duration_from_secs};

verus! {

/// The settings of a server: where it listens, its codec and event
/// handler, its timeouts and the sizes of its receive buffers.
pub struct Server<C, E> {
    pub codec: C,
    pub addr: String,
    pub max_package_size: usize,
    pub eventhandler: E,
    pub readtimeout: Duration,
    pub writetimeout: Duration,
    pub max_buf_size: usize,
    pub default_buf_size: usize,
    pub buf_num: usize,
}

impl<C, E> Server<C, E> {
    /// A server on `addr` with the default settings.
    pub fn new_with_codec(addr: &str, codec: C, eventhandler: E) -> (s: Server<C, E>)
        ensures
            s.addr@ == addr@,
            s.codec == codec,
            s.eventhandler == eventhandler,
            s.max_package_size == u32::MAX,
            s.readtimeout == secs_duration(60),
            s.writetimeout == secs_duration(60),
            s.max_buf_size == 64 * 1024,
            s.default_buf_size == 8 * 1024,
            s.buf_num == 128,
    {
        Server {
            addr: String::from_str(addr),
            codec: codec,
            max_package_size: 4294967295usize,
            eventhandler,
            readtimeout: duration_from_secs(60),
            writetimeout: duration_from_secs(60),
            max_buf_size: 64 * 1024,
            default_buf_size: 8 * 1024,
            buf_num: 128,
        }
    }

    /// The same server with another largest package size.
    pub fn with_max_package_size(self, size: usize) -> (s: Server<C, E>)
        ensures
            s == (Server { max_package_size: size, ..self }),
    {
        let mut s = self;
        s.max_package_size = size;
        s
    }

    /// The same server with another read timeout.
    pub fn with_readtimeout(self, readtimeout: Duration) -> (s: Server<C, E>)
        ensures
            s == (Server { readtimeout: readtimeout, ..self }),
    {
        let mut s = self;
        s.readtimeout = readtimeout;
        s
    }

    /// The same server with another write timeout.
    pub fn with_writetimeout(self, writetimeout: Duration) -> (s: Server<C, E>)
        ensures
            s == (Server { writetimeout: writetimeout, ..self }),
    {
        let mut s = self;
        s.writetimeout = writetimeout;
        s
    }

    /// The same server keeping up to `size` receive buffers in its pool for
    /// reuse, that is up to `size * max_buf_size` bytes.
    pub fn with_buf_pool_num(self, size: usize) -> (s: Server<C, E>)
        ensures
            s == (Server { buf_num: size, ..self }),
    {
        let mut s = self;
        s.buf_num = size;
        s
    }

    /// The same server with another buffer compaction threshold.
    pub fn with_max_buf_size(self, size: usize) -> (s: Server<C, E>)
        ensures
            s == (Server { max_buf_size: size, ..self }),
    {
        let mut s = self;
        s.max_buf_size = size;
        s
    }

    /// The same server with another initial buffer size.
    pub fn with_default_buf_size(self, size: usize) -> (s: Server<C, E>)
        ensures
            s == (Server { default_buf_size: size, ..self }),
    {
        let mut s = self;
        s.default_buf_size = size;
        s
    }

    /// Before serving, the initial buffer size is cut down to the
    /// compaction threshold.
    pub fn clamp_buf_sizes(&mut self)
        ensures
            *final(self) == (Server {
                default_buf_size: if old(self).default_buf_size > old(self).max_buf_size {
                    old(self).max_buf_size
                } else {
                    old(self).default_buf_size
                },
                ..*old(self)
            }),
    {
        if self.default_buf_size > self.max_buf_size {
            self.default_buf_size = self.max_buf_size
        }
    }
}

} // verus!
