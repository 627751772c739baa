use vstd::prelude::*;
use vstd::utf8::encode_utf8;
use vstd::string::StringSliceAdditionalSpecFns;
use std::time::Duration;
use std::num::ParseIntError;
use crate::err::NetError;
use crate::http_error::HttpError;
use crate::headers::Headers;
use crate::scan::{
    copy_range, find_crlf, find_piece, header_name, lemma_next_crlf_bounds,
    lemma_next_crlf_extend, lemma_piece_bounds, lemma_piece_bounds_extend,
    lemma_piece_bounds_prefix, name_copy, next_crlf, piece_bounds,
};
use crate::timing::{secs_duration, duration_from_secs};

verus! {

/// How the length of a message body is known.
#[derive(PartialEq, Eq, Structural, Debug, Clone, Copy)]
pub enum ContentType {
    Length(usize),
    Chunked,
    Unset,
}

/// An HTTP/1 request or response head, with the state a client keeps for
/// following redirects.
pub struct Request {
    pub proto: Vec<u8>,
    pub uri: Vec<u8>,
    pub method: Vec<u8>,
    pub client_method: Vec<u8>,
    pub path: Vec<u8>,
    pub keep_alive: bool,
    pub query: String,
    pub content_length: ContentType,
    pub header: Headers,
    pub err: String,
    pub host: String,
    pub port: u16,
    pub code: u16,
    pub max_redirects: u8,
    pub redirects: u8,
    pub request_host: String,
    pub max_package_size: usize,
    pub post_body: String,
    pub is_https: bool,
    pub body_start: usize,
    pub read_timeout: Duration,
}

/// Space, the separator of the request line.
pub const SP: u8 = 32;
/// Colon, the separator of a header line.
pub const COLON: u8 = 58;

/// The first line, searched from position `p` on, that splits at spaces
/// into at least three pieces: its start and the position of its line end.
pub open spec fn request_line(d: Seq<u8>, p: int) -> Option<(int, int)>
    decreases d.len() - p,
{
    match next_crlf(d, p) {
        None => None,
        Some(k) => {
            if piece_bounds(d, p, k, SP, 2) is Some {
                Some((p, k))
            } else {
                proof {
                    lemma_next_crlf_bounds(d, p);
                }
                request_line(d, k + 2)
            }
        },
    }
}

/// `h` with the header line `d[p..k]` added: a line with a colon sets the
/// lower-cased text before the first colon (see `header_name`) to the text between the first
/// and the second colon; a line without a colon adds nothing.
pub open spec fn with_header_line(d: Seq<u8>, p: int, k: int, h: Map<Seq<u8>, Seq<u8>>) -> Map<
    Seq<u8>,
    Seq<u8>,
> {
    match (piece_bounds(d, p, k, COLON, 0), piece_bounds(d, p, k, COLON, 1)) {
        (Some((a, b)), Some((c, e))) => h.insert(header_name(d.subrange(a, b)), d.subrange(c, e)),
        _ => h,
    }
}

/// What reading header lines from position `p` on gives.
pub ghost struct HeadScan {
    /// An empty line was found.
    pub complete: bool,
    /// The position of the empty line's line end, when `complete`.
    pub end: int,
    /// The header fields read.
    pub headers: Map<Seq<u8>, Seq<u8>>,
}

/// Reads header lines from position `p` on into `h`, up to an empty line.
pub open spec fn header_scan(d: Seq<u8>, p: int, h: Map<Seq<u8>, Seq<u8>>) -> HeadScan
    decreases d.len() - p,
{
    match next_crlf(d, p) {
        None => HeadScan { complete: false, end: p, headers: h },
        Some(k) => {
            if k == p {
                HeadScan { complete: true, end: k, headers: h }
            } else {
                proof {
                    lemma_next_crlf_bounds(d, p);
                }
                header_scan(d, k + 2, with_header_line(d, p, k, h))
            }
        },
    }
}

/// The `n`-th space-separated piece of the line `d[p..k]`.
pub open spec fn line_piece(d: Seq<u8>, p: int, k: int, n: nat) -> Seq<u8> {
    match piece_bounds(d, p, k, SP, n) {
        Some((a, b)) => d.subrange(a, b),
        None => Seq::empty(),
    }
}

/// The fields of a request that reading a head leaves alone.
pub open spec fn same_besides_head(a: Request, b: Request) -> bool {
    &&& a.uri@ == b.uri@
    &&& a.client_method@ == b.client_method@
    &&& a.keep_alive == b.keep_alive
    &&& a.query@ == b.query@
    &&& a.err@ == b.err@
    &&& a.host@ == b.host@
    &&& a.port == b.port
    &&& a.code == b.code
    &&& a.max_redirects == b.max_redirects
    &&& a.redirects == b.redirects
    &&& a.request_host@ == b.request_host@
    &&& a.max_package_size == b.max_package_size
    &&& a.post_body@ == b.post_body@
    &&& a.is_https == b.is_https
    &&& a.read_timeout == b.read_timeout
}

/// What `check_data` does to a request `old` when the received bytes are
/// `d`: `done` tells whether a whole head was read.
pub open spec fn head_read(old: Request, new: Request, d: Seq<u8>, done: bool) -> bool {
    &&& same_besides_head(old, new)
    &&& match request_line(d, 0) {
        None => {
            &&& !done
            &&& new.header@ == Map::<Seq<u8>, Seq<u8>>::empty()
            &&& new.method@ == old.method@
            &&& new.path@ == old.path@
            &&& new.proto@ == old.proto@
            &&& new.body_start == old.body_start
            &&& new.content_length == old.content_length
        },
        Some((p, k)) => {
            let scan = header_scan(d, k + 2, Map::empty());
            &&& new.method@ == line_piece(d, p, k, 0)
            &&& new.path@ == line_piece(d, p, k, 1)
            &&& new.proto@ == line_piece(d, p, k, 2)
            &&& new.header@ == scan.headers
            &&& done == scan.complete
            &&& scan.complete ==> new.body_start == scan.end + 2 && new.content_length
                == ContentType::Length(0)
            &&& !scan.complete ==> new.body_start == old.body_start && new.content_length
                == old.content_length
        },
    }
}

/// The bytes of a text literal.
pub open spec fn lit(s: &str) -> Seq<u8> {
    encode_utf8(s@)
}

/// The decimal digits of `n`.
pub open spec fn decimal_text(n: nat) -> Seq<u8>
    decreases n,
{
    if n < 10 {
        seq![(48 + n) as u8]
    } else {
        decimal_text(n / 10) + seq![(48 + n % 10) as u8]
    }
}

/// The number that a text of decimal digits denotes, read most significant
/// digit first.
pub open spec fn decimal_value(s: Seq<u8>) -> int
    decreases s.len(),
{
    if s.len() == 0 {
        0
    } else {
        10 * decimal_value(s.drop_last()) + (s.last() - 48)
    }
}

/// The digits that give a content length are decimal digits, without a
/// leading zero, and read back as that length.
pub proof fn law_decimal_text_reads_back(n: nat)
    ensures
        decimal_value(decimal_text(n)) == n,
        decimal_text(n).len() > 0,
        forall|i: int| 0 <= i < decimal_text(n).len() ==> 48 <= #[trigger] decimal_text(n)[i] <= 57,
        n > 0 ==> decimal_text(n)[0] != 48,
    decreases n,
{
    if n >= 10 {
        law_decimal_text_reads_back(n / 10);
        let t = decimal_text(n);
        let h = decimal_text(n / 10);
        assert(t.drop_last() =~= h);
        assert(t.last() == (48 + n % 10) as u8);
        assert(n == 10 * (n / 10) + n % 10);
        assert forall|i: int| 0 <= i < t.len() implies 48 <= #[trigger] t[i] <= 57 by {
            if i < h.len() {
                assert(t[i] == h[i]);
            }
        }
        assert(t[0] == h[0]);
        assert(decimal_value(t) == 10 * decimal_value(h) + (t.last() - 48));
    } else {
        let t = decimal_text(n);
        assert(t.drop_last() =~= Seq::<u8>::empty());
        assert(decimal_value(t.drop_last()) == 0);
        assert(decimal_value(t) == 10 * decimal_value(t.drop_last()) + (t.last() - 48));
    }
}

/// The header lines of a request to send: `name: value` and CR LF per
/// field, in order.
pub open spec fn header_lines(s: Seq<(Seq<u8>, Seq<u8>)>) -> Seq<u8>
    decreases s.len(),
{
    if s.len() == 0 {
        Seq::empty()
    } else {
        header_lines(s.drop_last()) + s.last().0 + lit(": ") + s.last().1 + lit("\r\n")
    }
}

/// The text of the request that a client sends for `r`.
pub open spec fn request_text(r: Request) -> Seq<u8> {
    let body = encode_utf8(r.post_body@);
    let fields = header_lines(r.header.entry_seq()) + if body.len() > 0 {
        lit("content-length: ") + decimal_text(body.len())
    } else {
        Seq::empty()
    };
    r.client_method@ + lit(" ") + r.path@ + lit(
        " HTTP/1.1\r\nAccept-Language: zh-CN,zh-Hans;q=0.9\r\nAccept-Encoding: gzip, deflate\r\nHost: ",
    ) + encode_utf8(r.request_host@) + lit("\r\nConnection: keep-alive\r\n") + fields + lit(
        "\r\n\r\n",
    ) + body
}

/// A copy of `b`.
fn owned_bytes(b: &[u8]) -> (v: Vec<u8>)
    ensures
        v@ == b@,
{
    let v = copy_range(b, 0, b.len());
    assert(b@.subrange(0, b@.len() as int) =~= b@);
    v
}

/// Appends `b` to `out`.
fn push_all(out: &mut Vec<u8>, b: &[u8])
    ensures
        final(out)@ == old(out)@ + b@,
{
    let mut i: usize = 0;
    while i < b.len()
        invariant
            i <= b@.len(),
            out@ == old(out)@ + b@.subrange(0, i as int),
        decreases b@.len() - i,
    {
        out.push(b[i]);
        i = i + 1;
        assert(out@ =~= old(out)@ + b@.subrange(0, i as int));
    }
    assert(b@.subrange(0, b@.len() as int) =~= b@);
}

/// Appends the decimal digits of `n` to `out`.
fn push_decimal(out: &mut Vec<u8>, n: usize)
    ensures
        final(out)@ == old(out)@ + decimal_text(n as nat),
    decreases n,
{
    if n < 10 {
        out.push(48u8 + n as u8);
        assert(out@ =~= old(out)@ + decimal_text(n as nat));
    } else {
        push_decimal(out, n / 10);
        out.push(48u8 + (n % 10) as u8);
        assert(out@ =~= old(out)@ + decimal_text(n as nat));
    }
}

/// Calls `u32::from_str_radix(s, 16)`, which reads an optional `+` and then
/// one or more hexadecimal digits, and fails on anything else or on a value
/// past `u32::MAX`.
#[verifier::external_body]
fn u32_from_hex(s: &str) -> (res: Result<u32, ParseIntError>)
    ensures
        res is Ok <==> parse_hex_u32(s@) is Some,
        res matches Ok(v) ==> parse_hex_u32(s@) == Some(v),
{
    u32::from_str_radix(s, 16)
}

/// The value of a hexadecimal digit.
pub open spec fn hex_digit(c: char) -> Option<nat> {
    if '0' <= c <= '9' {
        Some((c as nat - '0' as nat) as nat)
    } else if 'a' <= c <= 'f' {
        Some((c as nat - 'a' as nat + 10) as nat)
    } else if 'A' <= c <= 'F' {
        Some((c as nat - 'A' as nat + 10) as nat)
    } else {
        None
    }
}

/// The value of a string of hexadecimal digits.
pub open spec fn hex_value(s: Seq<char>) -> Option<nat>
    decreases s.len(),
{
    if s.len() == 0 {
        Some(0)
    } else {
        match (hex_value(s.drop_last()), hex_digit(s.last())) {
            (Some(a), Some(d)) => Some(16 * a + d),
            _ => None,
        }
    }
}

/// The `u32` that a text in base 16 denotes: an optional `+`, then one or
/// more digits, with a value that fits.
pub open spec fn parse_hex_u32(s: Seq<char>) -> Option<u32> {
    let digits = if s.len() > 0 && s[0] == '+' {
        s.drop_first()
    } else {
        s
    };
    if digits.len() == 0 {
        None
    } else {
        match hex_value(digits) {
            Some(v) => if v <= u32::MAX {
                Some(v as u32)
            } else {
                None
            },
            None => None,
        }
    }
}

/// A request in its default state, whose read timeout is ten seconds.
pub open spec fn fresh_request(req: Request) -> bool {
    &&& req.proto@ == Seq::<u8>::empty()
    &&& req.uri@ == Seq::<u8>::empty()
    &&& req.method@ == Seq::<u8>::empty()
    &&& req.client_method@ == lit("GET")
    &&& req.path@ == lit("/")
    &&& !req.keep_alive
    &&& req.query@ == Seq::<char>::empty()
    &&& req.content_length == ContentType::Unset
    &&& req.header@ == Map::<Seq<u8>, Seq<u8>>::empty()
    &&& req.header.entry_seq() == Seq::<(Seq<u8>, Seq<u8>)>::empty()
    &&& req.err@ == Seq::<char>::empty()
    &&& req.host@ == Seq::<char>::empty()
    &&& req.port == 0
    &&& req.code == 0
    &&& req.max_redirects == 5
    &&& req.redirects == 0
    &&& req.request_host@ == Seq::<char>::empty()
    &&& req.max_package_size == 10 * 1024 * 1024
    &&& req.post_body@ == Seq::<char>::empty()
    &&& !req.is_https
    &&& req.body_start == 0
    &&& req.read_timeout == secs_duration(10)
}

/// What to do with a message body after its head was read.
pub enum FinishStep {
    /// Drop this many bytes from the receive buffer.
    Shift(usize),
    /// Read the body chunk by chunk.
    Chunked,
}

/// What a chunk-size line asks for.
pub enum ChunkStep {
    /// The last chunk: read its closing line and stop.
    Last,
    /// Drop this many bytes (the chunk and its line end) and go on.
    Skip(u64),
}

/// What to do after a head was read, when a client follows redirects.
pub enum StreamStep {
    /// A redirect: finish its body, then call `follow_redirect`.
    Redirect,
    /// Not a redirect: drop this many bytes (the head) and stop.
    Finish(usize),
}

/// A request line found from `p` on starts and ends inside `d`, and its
/// line end is followed by an LF.
pub proof fn lemma_request_line_bounds(d: Seq<u8>, p: int)
    ensures
        match request_line(d, p) {
            Some((s, k)) => p <= s <= k && k + 1 < d.len() && piece_bounds(d, s, k, SP, 2) is Some,
            None => true,
        },
    decreases d.len() - p,
{
    lemma_next_crlf_bounds(d, p);
    match next_crlf(d, p) {
        None => {},
        Some(k) => {
            if piece_bounds(d, p, k, SP, 2) is None {
                lemma_request_line_bounds(d, k + 2);
            }
        },
    }
}

/// The start and the line end of the request line in `data`.
fn find_request_line(data: &[u8]) -> (res: Option<(usize, usize)>)
    ensures
        res matches Some((s, k)) ==> request_line(data@, 0) == Some((s as int, k as int)),
        res is None ==> request_line(data@, 0) is None,
{
    let n = data.len();
    let mut p: usize = 0;
    loop
        invariant
            n == data@.len(),
            p <= data@.len(),
            request_line(data@, 0) == request_line(data@, p as int),
        decreases data@.len() - p,
    {
        match find_crlf(data, p) {
            None => {
                return None;
            },
            Some(k) => {
                proof {
                    lemma_next_crlf_bounds(data@, p as int);
                }
                match find_piece(data, p, k, SP, 2) {
                    Some(_) => {
                        return Some((p, k));
                    },
                    None => {
                        p = k + 2;
                    },
                }
            },
        }
    }
}

impl Default for Request {
    fn default() -> (req: Request)
        ensures
            fresh_request(req),
    {
        Request::new("")
    }
}

impl Request {
    /// A request with the default settings; the URL is not read.
    pub fn new(url: &str) -> (req: Request)
        ensures
            fresh_request(req),
    {
        let mut req = Request {
            body_start: 0,
            proto: Vec::new(),
            method: Vec::new(),
            client_method: owned_bytes("GET".as_bytes()),
            path: owned_bytes("/".as_bytes()),
            query: String::new(),
            uri: Vec::new(),
            keep_alive: false,
            content_length: ContentType::Unset,
            header: Headers::new(),
            err: String::new(),
            host: String::new(),
            port: 0,
            code: 0,
            max_redirects: 5,
            redirects: 0,
            request_host: String::new(),
            max_package_size: 10 * 1024 * 1024,
            post_body: String::new(),
            is_https: false,
            read_timeout: duration_from_secs(10),
        };
        req.url_parse(url);
        req
    }

    /// The same request with another read timeout.
    pub fn with_readtimeout(self, timeout: Duration) -> (req: Self)
        ensures
            req == (Request { read_timeout: timeout, ..self }),
    {
        let mut req = self;
        req.read_timeout = timeout;
        req
    }

    /// Sets how many redirects to follow, at most 100.
    pub fn set_max_redirects(&mut self, n: u8) -> (r: &Request)
        ensures
            *final(self) == (Request {
                max_redirects: if n > 100 {
                    100
                } else {
                    n
                },
                ..*old(self)
            }),
            *r == *final(self),
    {
        if n > 100 {
            self.max_redirects = 100
        } else {
            self.max_redirects = n
        }
        self
    }

    /// Reading the URL is switched off: the request is left as it is.
    pub fn url_parse(&mut self, url: &str)
        ensures
            *final(self) == *old(self),
    {
    }

    /// The text of the request to send.
    pub fn format_message(&self) -> (msg: Vec<u8>)
        ensures
            msg@ == request_text(*self),
    {
        let mut fields: Vec<u8> = Vec::new();
        let n = self.header.len();
        let mut i: usize = 0;
        while i < n
            invariant
                n == self.header.entry_seq().len(),
                i <= n,
                fields@ == header_lines(self.header.entry_seq().subrange(0, i as int)),
            decreases n - i,
        {
            let (k, v) = self.header.entry(i);
            push_all(&mut fields, k);
            push_all(&mut fields, ": ".as_bytes());
            push_all(&mut fields, v);
            push_all(&mut fields, "\r\n".as_bytes());
            proof {
                let s = self.header.entry_seq();
                assert(s.subrange(0, i + 1).drop_last() =~= s.subrange(0, i as int));
            }
            i = i + 1;
        }
        assert(self.header.entry_seq().subrange(0, n as int) =~= self.header.entry_seq());
        let body = self.post_body.as_str().as_bytes();
        if body.len() != 0 {
            push_all(&mut fields, "content-length: ".as_bytes());
            push_decimal(&mut fields, body.len());
        }
        let mut msg: Vec<u8> = Vec::new();
        push_all(&mut msg, self.client_method.as_slice());
        push_all(&mut msg, " ".as_bytes());
        push_all(&mut msg, self.path.as_slice());
        push_all(
            &mut msg,
            " HTTP/1.1\r\nAccept-Language: zh-CN,zh-Hans;q=0.9\r\nAccept-Encoding: gzip, deflate\r\nHost: ".as_bytes(),
        );
        push_all(&mut msg, self.request_host.as_str().as_bytes());
        push_all(&mut msg, "\r\nConnection: keep-alive\r\n".as_bytes());
        push_all(&mut msg, fields.as_slice());
        push_all(&mut msg, "\r\n\r\n".as_bytes());
        push_all(&mut msg, body);
        msg
    }

    /// Reads a request head from the received bytes `data`: the first line
    /// with at least three space-separated pieces gives the method, the path
    /// and the protocol, and the lines after it, up to an empty line, give
    /// the header fields. Returns whether the whole head has arrived; when it
    /// has, the body starts after the empty line and has length 0.
    pub fn check_data(&mut self, data: &[u8]) -> (done: bool)
        ensures
            head_read(*old(self), *final(self), data@, done),
    {
        self.header.clear();
        let ghost d = data@;
        let n = data.len();
        let (p0, k0) = match find_request_line(data) {
            None => {
                return false;
            },
            Some(line) => line,
        };
        proof {
            lemma_request_line_bounds(d, 0);
            lemma_piece_bounds_prefix(d, p0 as int, k0 as int, SP, 2);
            lemma_piece_bounds_prefix(d, p0 as int, k0 as int, SP, 1);
            lemma_piece_bounds(d, p0 as int, k0 as int, SP, 0);
            lemma_piece_bounds(d, p0 as int, k0 as int, SP, 1);
            lemma_piece_bounds(d, p0 as int, k0 as int, SP, 2);
        }
        let (a0, b0) = find_piece(data, p0, k0, SP, 0).unwrap();
        let (a1, b1) = find_piece(data, p0, k0, SP, 1).unwrap();
        let (a2, b2) = find_piece(data, p0, k0, SP, 2).unwrap();
        self.method = copy_range(data, a0, b0);
        self.path = copy_range(data, a1, b1);
        self.proto = copy_range(data, a2, b2);
        let mut p: usize = k0 + 2;
        assert(header_scan(d, k0 + 2, Map::empty()) == header_scan(d, p as int, self.header@));
        loop
            invariant
                n == d.len(),
                p <= d.len(),
                d == data@,
                k0 + 2 <= p,
                request_line(d, 0) == Some((p0 as int, k0 as int)),
                header_scan(d, k0 + 2, Map::empty()) == header_scan(d, p as int, self.header@),
                self.method@ == line_piece(d, p0 as int, k0 as int, 0),
                self.path@ == line_piece(d, p0 as int, k0 as int, 1),
                self.proto@ == line_piece(d, p0 as int, k0 as int, 2),
                self.body_start == old(self).body_start,
                self.content_length == old(self).content_length,
                same_besides_head(*old(self), *self),
            decreases d.len() - p,
        {
            match find_crlf(data, p) {
                None => {
                    return false;
                },
                Some(k) => {
                    proof {
                        lemma_next_crlf_bounds(d, p as int);
                    }
                    if k == p {
                        self.body_start = k + 2;
                        self.content_length = ContentType::Length(0);
                        return true;
                    }
                    match find_piece(data, p, k, COLON, 1) {
                        Some((c, e)) => {
                            proof {
                                lemma_piece_bounds_prefix(d, p as int, k as int, COLON, 1);
                                lemma_piece_bounds(d, p as int, k as int, COLON, 0);
                                lemma_piece_bounds(d, p as int, k as int, COLON, 1);
                            }
                            let (a, b) = find_piece(data, p, k, COLON, 0).unwrap();
                            let key = name_copy(data, a, b);
                            let value = copy_range(data, c, e);
                            self.header.insert(key, value);
                        },
                        None => {},
                    }
                    p = k + 2;
                },
            }
        }
    }

    /// What to do with the body once the head was read: drop it when its
    /// length is known, read it chunk by chunk when it is chunked; an unset
    /// length is an error.
    pub fn read_finish(&self) -> (step: Result<FinishStep, HttpError>)
        requires
            self.content_length matches ContentType::Length(size) ==> self.body_start + size
                <= usize::MAX,
        ensures
            match self.content_length {
                ContentType::Length(size) => step matches Ok(FinishStep::Shift(n)) && n
                    == self.body_start + size,
                ContentType::Chunked => step matches Ok(FinishStep::Chunked),
                ContentType::Unset => step matches Err(HttpError::Custom(s)) && s@
                    == "err content_length"@,
            },
    {
        match self.content_length {
            ContentType::Length(size) => Ok(FinishStep::Shift(self.body_start + size)),
            ContentType::Chunked => Ok(FinishStep::Chunked),
            ContentType::Unset => Err(HttpError::Custom(String::from_str("err content_length"))),
        }
    }

    /// Whether the status code is a redirect that the client follows.
    pub fn is_redirect(&self) -> (r: bool)
        ensures
            r == (self.code == 301 || self.code == 302 || self.code == 307),
    {
        self.code == 301 || self.code == 302 || self.code == 307
    }

    /// What to do after a head was read: a redirect status asks for its
    /// body to be finished and the redirect followed; any other status
    /// drops the head from the receive buffer.
    pub fn stream_step(&self) -> (step: StreamStep)
        ensures
            (self.code == 301 || self.code == 302 || self.code == 307) ==> step
                is Redirect,
            !(self.code == 301 || self.code == 302 || self.code == 307) ==> (step matches StreamStep::Finish(
                n,
            ) && n == self.body_start),
    {
        if self.is_redirect() {
            StreamStep::Redirect
        } else {
            StreamStep::Finish(self.body_start)
        }
    }

    /// Follows a redirect whose body was finished: with redirects switched
    /// off (`max_redirects == 0`) there is nothing to do; once `redirects`
    /// has reached the limit it fails; else the path becomes the `location`
    /// field (names are kept in lower case), the redirect is counted, and
    /// the request to send again comes back. A missing `location` field is
    /// an error.
    pub fn follow_redirect(&mut self) -> (res: Result<Option<Vec<u8>>, HttpError>)
        ensures
            old(self).max_redirects == 0 ==> (res matches Ok(None) && *final(self) == *old(self)),
            old(self).max_redirects != 0 && old(self).redirects >= old(self).max_redirects ==> (res
                matches Err(HttpError::TooManyRedirects) && *final(self) == *old(self)),
            old(self).max_redirects != 0 && old(self).redirects < old(self).max_redirects
                && !old(self).header@.contains_key(lit("location")) ==> (res matches Err(
                HttpError::Custom(s),
            ) && s@ == "Location url not found"@ && *final(self) == *old(self)),
            old(self).max_redirects != 0 && old(self).redirects < old(self).max_redirects
                && old(self).header@.contains_key(lit("location")) ==> {
                &&& final(self).path@ == old(self).header@[lit("location")]
                &&& final(self).redirects == old(self).redirects + 1
                &&& *final(self) == (Request {
                    path: final(self).path,
                    redirects: final(self).redirects,
                    ..*old(self)
                })
                &&& res matches Ok(Some(msg)) && msg@ == request_text(*final(self))
            },
    {
        if self.max_redirects == 0 {
            return Ok(None);
        }
        if self.redirects >= self.max_redirects {
            return Err(HttpError::TooManyRedirects);
        }
        let target = match self.header.get("location".as_bytes()) {
            Some(a) => owned_bytes(a),
            None => {
                return Err(HttpError::Custom(String::from_str("Location url not found")));
            },
        };
        self.path = target;
        self.redirects = self.redirects + 1;
        Ok(Some(self.format_message()))
    }
}

/// What a chunk-size line of a chunked body asks for: size 0 ends the body;
/// another size asks to drop the chunk and its line end. A line that is not
/// a hexadecimal `u32` is an invalid argument, carrying the text of the
/// parse error.
pub fn chunk_step(line: &str) -> (step: Result<ChunkStep, HttpError>)
    ensures
        match parse_hex_u32(line@) {
            Some(v) => if v == 0 {
                step matches Ok(ChunkStep::Last)
            } else {
                step matches Ok(ChunkStep::Skip(n)) && n == v + 2
            },
            None => step matches Err(HttpError::InvalidArgument(_)),
        },
{
    match u32_from_hex(line) {
        Ok(len) => {
            if len == 0 {
                Ok(ChunkStep::Last)
            } else {
                Ok(ChunkStep::Skip(len as u64 + 2))
            }
        },
        Err(e) => Err(HttpError::from(e)),
    }
}

/// The HTTP/1 codec: frames go out as they are; a frame comes in when a
/// whole request head has arrived.
#[derive(Copy, Clone)]
pub struct Http1Codec {}

impl Http1Codec {
    /// Outgoing data is sent as it is.
    pub fn encode(&mut self, indata: Vec<u8>, ctx: &mut Request) -> (res: Result<
        Option<Vec<u8>>,
        NetError,
    >)
        ensures
            res matches Ok(Some(out)) && out@ == indata@,
            *final(ctx) == *old(ctx),
    {
        Ok(Some(indata))
    }

    /// Reads a request head from the received bytes; an empty frame comes
    /// back once the whole head is there, nothing while it is incomplete.
    pub fn decode(&mut self, req: &mut Request, data: &[u8]) -> (res: Option<Vec<u8>>)
        ensures
            head_read(*old(req), *final(req), data@, res is Some),
            res matches Some(frame) ==> frame@ == Seq::<u8>::empty(),
    {
        if req.check_data(data) {
            Some(Vec::new())
        } else {
            None
        }
    }
}

} // verus!

verus! {

/// Header lines read before an empty line are read the same when more
/// bytes follow.
pub proof fn lemma_header_scan_extend(d: Seq<u8>, e: Seq<u8>, p: int, h: Map<Seq<u8>, Seq<u8>>)
    requires
        0 <= p,
        header_scan(d, p, h).complete,
    ensures
        header_scan(d + e, p, h) == header_scan(d, p, h),
    decreases d.len() - p,
{
    lemma_next_crlf_bounds(d, p);
    let k = next_crlf(d, p).unwrap();
    lemma_next_crlf_extend(d, e, p);
    if k != p {
        lemma_piece_bounds_extend(d, e, p, k, COLON, 0);
        lemma_piece_bounds_extend(d, e, p, k, COLON, 1);
        let de = d + e;
        match (piece_bounds(d, p, k, COLON, 0), piece_bounds(d, p, k, COLON, 1)) {
            (Some((a, b)), Some((c, f))) => {
                lemma_piece_bounds(d, p, k, COLON, 0);
                lemma_piece_bounds(d, p, k, COLON, 1);
                assert(de.subrange(a, b) =~= d.subrange(a, b));
                assert(de.subrange(c, f) =~= d.subrange(c, f));
            },
            _ => {},
        }
        assert(with_header_line(de, p, k, h) == with_header_line(d, p, k, h));
        lemma_header_scan_extend(d, e, k + 2, with_header_line(d, p, k, h));
    }
}

pub proof fn lemma_request_line_extend(d: Seq<u8>, e: Seq<u8>, p: int)
    requires
        0 <= p,
        request_line(d, p) is Some,
    ensures
        request_line(d + e, p) == request_line(d, p),
    decreases d.len() - p,
{
    lemma_next_crlf_bounds(d, p);
    let k = next_crlf(d, p).unwrap();
    lemma_next_crlf_extend(d, e, p);
    lemma_piece_bounds_extend(d, e, p, k, SP, 2);
    if piece_bounds(d, p, k, SP, 2) is None {
        lemma_request_line_extend(d, e, k + 2);
    }
}

/// Once a whole head has arrived, more received bytes do not change what
/// is read from it: the request line, the header fields and where the body
/// starts stay the same.
pub proof fn law_complete_head_is_stable(d: Seq<u8>, e: Seq<u8>)
    requires
        request_line(d, 0) is Some,
        header_scan(d, request_line(d, 0).unwrap().1 + 2, Map::empty()).complete,
    ensures
        request_line(d + e, 0) == request_line(d, 0),
        header_scan(d + e, request_line(d, 0).unwrap().1 + 2, Map::empty()) == header_scan(
            d,
            request_line(d, 0).unwrap().1 + 2,
            Map::empty(),
        ),
{
    lemma_request_line_extend(d, e, 0);
    lemma_request_line_bounds(d, 0);
    let (p, k) = request_line(d, 0).unwrap();
    lemma_header_scan_extend(d, e, k + 2, Map::empty());
    let de = d + e;
    assert forall|n: nat| #![auto] line_piece(de, p, k, n) == line_piece(d, p, k, n) by {
        lemma_piece_bounds_extend(d, e, p, k, SP, n);
        lemma_piece_bounds(d, p, k, SP, n);
        match piece_bounds(d, p, k, SP, n) {
            Some((a, b)) => {
                assert(de.subrange(a, b) =~= d.subrange(a, b));
            },
            None => {},
        }
    }
}

/// Reading a head does not depend on what the request held before: two
/// requests that read the same bytes end with the same header fields and
/// the same answer, and, when the bytes start with a request line, the same
/// method, path and protocol. Fields of an earlier head do not survive.
pub proof fn law_head_read_ignores_earlier_state(
    old1: Request,
    new1: Request,
    done1: bool,
    old2: Request,
    new2: Request,
    done2: bool,
    d: Seq<u8>,
)
    requires
        head_read(old1, new1, d, done1),
        head_read(old2, new2, d, done2),
    ensures
        new1.header@ == new2.header@,
        done1 == done2,
        request_line(d, 0) is Some ==> {
            &&& new1.method@ == new2.method@
            &&& new1.path@ == new2.path@
            &&& new1.proto@ == new2.proto@
        },
        done1 ==> new1.body_start == new2.body_start,
{
}

/// Bytes that hold no request line leave no header fields behind.
pub proof fn law_no_request_line_no_fields(old: Request, new: Request, d: Seq<u8>, done: bool)
    requires
        head_read(old, new, d, done),
        request_line(d, 0) is None,
    ensures
        new.header@.dom() == Set::<Seq<u8>>::empty(),
        !done,
{
}

} // verus!
