use vstd::prelude::*;
use vstd::utf8::{valid_utf8, encode_utf8};
use vstd::string::StringSliceAdditionalSpecFns;
use crate::err::NetError;
use crate::text::str_from_utf8;

verus! {

/// Threshold of the start offset past which the buffer moves its live bytes
/// to the front (used by `MsgBuffer::test_new`).
pub const TEST_MAX_BUF_SIZE: usize = 16;
/// Initial storage size of `MsgBuffer::test_new`.
pub const TEST_DEFAULT_BUF_SIZE: usize = 8;
/// Threshold of the start offset past which the buffer moves its live bytes
/// to the front.
pub const MAX_BUF_SIZE: usize = 65536;
/// Initial storage size of a buffer made by `new`.
pub const DEFAULT_BUF_SIZE: usize = 8192;

/// A receive buffer: a storage array, of which the bytes between `pos` and
/// `l` are the live data. Reading consumes from the front (`shift`),
/// writing appends at the back.
pub struct MsgBuffer {
    b: Vec<u8>,
    max_buf_size: usize,
    default_buf_size: usize,
    pos: usize,
    l: usize,
}

/// The abstract state of a `MsgBuffer`: its whole storage, the live window
/// `[pos, end)` and its two size parameters.
pub ghost struct BufState {
    pub storage: Seq<u8>,
    pub pos: nat,
    pub end: nat,
    pub max_size: nat,
    pub default_size: nat,
}

/// `n` zero bytes.
pub open spec fn zeros(n: nat) -> Seq<u8> {
    Seq::new(n, |i: int| 0u8)
}

/// `src` cut or padded with zeros to exactly `n` bytes.
pub open spec fn fit(src: Seq<u8>, n: nat) -> Seq<u8> {
    if src.len() >= n {
        src.subrange(0, n as int)
    } else {
        src + zeros((n - src.len()) as nat)
    }
}

/// `a` with the bytes from `at` on replaced by `w`.
pub open spec fn splice(a: Seq<u8>, at: int, w: Seq<u8>) -> Seq<u8> {
    a.subrange(0, at) + w + a.subrange(at + w.len(), a.len() as int)
}

/// The larger of `a` and `b`.
pub open spec fn max_nat(a: nat, b: nat) -> nat {
    if a >= b {
        a
    } else {
        b
    }
}

impl BufState {
    /// The live window lies inside the storage.
    pub open spec fn wf(self) -> bool {
        &&& self.pos <= self.end <= self.storage.len()
        &&& self.storage.len() <= usize::MAX
        &&& self.max_size <= usize::MAX
        &&& self.default_size <= usize::MAX
    }

    /// The live bytes.
    pub open spec fn content(self) -> Seq<u8> {
        self.storage.subrange(self.pos as int, self.end as int)
    }

    /// The number of live bytes.
    pub open spec fn len(self) -> nat {
        (self.end - self.pos) as nat
    }

    /// Moving the live bytes to the front of a fresh storage of
    /// `max(len, max_size)` bytes (made when `pos` has passed `max_size`).
    pub open spec fn resized(self) -> BufState {
        let len = (self.end - self.pos) as nat;
        let src = self.storage.subrange(self.pos as int, self.storage.len() as int);
        BufState {
            storage: fit(src, max_nat(len, self.max_size)),
            pos: 0,
            end: len,
            ..self
        }
    }

    /// The state in which every writing operation starts: resized when
    /// `pos` is past `max_size`, else unchanged.
    pub open spec fn compacted(self) -> BufState {
        if self.pos > self.max_size {
            self.resized()
        } else {
            self
        }
    }

    /// Growing the storage for `n` more bytes: a fresh storage of
    /// `max(2 * old size, n)` bytes that starts with the old bytes from `pos`
    /// on. `pos` and `end` keep their values.
    pub open spec fn grown(self, n: nat) -> BufState {
        let src = self.storage.subrange(self.pos as int, self.storage.len() as int);
        BufState {
            storage: src + zeros((max_nat(2 * self.storage.len(), n) - src.len()) as nat),
            ..self
        }
    }

    /// The state before the bytes of an append of `n` bytes are stored:
    /// compacted, then grown if the new end passes the storage.
    pub open spec fn reserved(self, n: nat) -> BufState {
        let c = self.compacted();
        if c.end + n > c.storage.len() {
            c.grown(n)
        } else {
            c
        }
    }

    /// An append of `n` bytes fits in `usize` and in the storage it reserves.
    pub open spec fn can_append(self, n: nat) -> bool {
        let c = self.compacted();
        &&& c.end + n <= usize::MAX
        &&& c.end + n > c.storage.len() ==> 2 * c.storage.len() <= usize::MAX
        &&& c.end + n <= self.reserved(n).storage.len()
    }

    /// The state after appending `w`.
    pub open spec fn appended(self, w: Seq<u8>) -> BufState {
        let r = self.reserved(w.len());
        BufState { storage: splice(r.storage, r.end as int, w), end: r.end + w.len(), ..r }
    }

    /// The state after `reset`.
    pub open spec fn emptied(self) -> BufState {
        BufState { pos: 0, end: 0, ..self.compacted() }
    }

    /// The state after `shift(n)`.
    pub open spec fn shifted(self, n: nat) -> BufState {
        if n == 0 {
            self
        } else if n < self.len() {
            let s = BufState { pos: self.pos + n, ..self };
            if s.pos > s.max_size {
                s.resized()
            } else {
                s
            }
        } else {
            self.emptied()
        }
    }

    /// The state after `make(n)`, before the caller writes into the region
    /// it was handed.
    pub open spec fn made(self, n: nat) -> BufState {
        let r = self.reserved(n);
        BufState { end: r.end + n, ..r }
    }

    /// The state after `size` bytes, read into the storage past the live
    /// window, join it (at most up to the end of the storage).
    pub open spec fn extended(self, size: nat) -> BufState {
        let e = self.end + size;
        BufState { end: if e <= self.storage.len() { e } else { self.storage.len() }, ..self }
    }

    /// The state after `truncate(n)`.
    pub open spec fn truncated(self, n: nat) -> BufState {
        if n < self.len() {
            BufState { end: self.pos + n, ..self }
        } else {
            self
        }
    }
}

impl View for MsgBuffer {
    type V = BufState;

    closed spec fn view(&self) -> BufState {
        BufState {
            storage: self.b@,
            pos: self.pos as nat,
            end: self.l as nat,
            max_size: self.max_buf_size as nat,
            default_size: self.default_buf_size as nat,
        }
    }
}

/// `n` zero bytes.
fn zeroed(n: usize) -> (v: Vec<u8>)
    ensures
        v@ == zeros(n as nat),
{
    let v = vec![0u8; n];
    assert(v@ =~= zeros(n as nat));
    v
}

/// A buffer with the default sizes and an empty live window.
pub fn new() -> (buf: MsgBuffer)
    ensures
        buf@.wf(),
        buf@.storage == zeros(DEFAULT_BUF_SIZE as nat),
        buf@.pos == 0,
        buf@.end == 0,
        buf@.max_size == MAX_BUF_SIZE,
        buf@.default_size == DEFAULT_BUF_SIZE,
{
    MsgBuffer {
        b: zeroed(DEFAULT_BUF_SIZE),
        max_buf_size: MAX_BUF_SIZE,
        default_buf_size: DEFAULT_BUF_SIZE,
        pos: 0,
        l: 0,
    }
}

impl Default for MsgBuffer {
    fn default() -> (buf: MsgBuffer)
        ensures
            buf@.wf(),
            buf@.storage == zeros(DEFAULT_BUF_SIZE as nat),
            buf@.pos == 0,
            buf@.end == 0,
            buf@.max_size == MAX_BUF_SIZE,
            buf@.default_size == DEFAULT_BUF_SIZE,
    {
        new()
    }
}

impl MsgBuffer {
    /// A small buffer, convenient to exercise growing and compaction.
    pub fn test_new() -> (buf: MsgBuffer)
        ensures
            buf@.wf(),
            buf@.storage == zeros(TEST_DEFAULT_BUF_SIZE as nat),
            buf@.pos == 0,
            buf@.end == 0,
            buf@.max_size == TEST_MAX_BUF_SIZE,
            buf@.default_size == TEST_DEFAULT_BUF_SIZE,
    {
        MsgBuffer {
            b: zeroed(TEST_DEFAULT_BUF_SIZE),
            max_buf_size: TEST_MAX_BUF_SIZE,
            default_buf_size: TEST_DEFAULT_BUF_SIZE,
            pos: 0,
            l: 0,
        }
    }

    /// The start offset of the live bytes in the storage.
    pub fn pos(&self) -> (p: usize)
        ensures
            p == self@.pos,
    {
        self.pos
    }

    /// The bytes `src[from..to]` followed by zeros up to `n` bytes.
    fn copy_padded(src: &Vec<u8>, from: usize, to: usize, n: usize) -> (v: Vec<u8>)
        requires
            from <= to <= src@.len(),
            to - from <= n,
        ensures
            v@ == src@.subrange(from as int, to as int) + zeros((n - (to - from)) as nat),
    {
        let ghost part = src@.subrange(from as int, to as int);
        let mut v: Vec<u8> = Vec::new();
        let mut i: usize = from;
        while i < to
            invariant
                from <= i <= to <= src@.len(),
                part == src@.subrange(from as int, to as int),
                v@ == src@.subrange(from as int, i as int),
            decreases to - i,
        {
            v.push(src[i]);
            i = i + 1;
            assert(v@ =~= src@.subrange(from as int, i as int));
        }
        let mut k: usize = to - from;
        while k < n
            invariant
                to - from <= k <= n,
                part == src@.subrange(from as int, to as int),
                v@ == part + zeros((k - (to - from)) as nat),
            decreases n - k,
        {
            v.push(0u8);
            k = k + 1;
            assert(v@ =~= part + zeros((k - (to - from)) as nat));
        }
        v
    }

    fn grow(&mut self, n: usize)
        requires
            old(self)@.wf(),
            2 * old(self)@.storage.len() <= usize::MAX,
        ensures
            final(self)@ == old(self)@.grown(n as nat),
            final(self)@.wf(),
    {
        let len = self.b.len() * 2;
        let newlen = if len > n {
            len
        } else {
            n
        };
        let v = Self::copy_padded(&self.b, self.pos, self.b.len(), newlen);
        self.b = v;
    }

    fn re_size(&mut self)
        requires
            old(self)@.wf(),
        ensures
            old(self)@.pos >= old(self)@.max_size ==> final(self)@ == old(self)@.resized(),
            old(self)@.pos < old(self)@.max_size ==> final(self)@ == old(self)@,
            final(self)@.wf(),
    {
        if self.pos >= self.max_buf_size {
            let len = self.l - self.pos;
            let newlen = if len > self.max_buf_size {
                len
            } else {
                self.max_buf_size
            };
            let avail = self.b.len() - self.pos;
            let keep = if avail > newlen {
                newlen
            } else {
                avail
            };
            let v = Self::copy_padded(&self.b, self.pos, self.pos + keep, newlen);
            proof {
                let src = old(self)@.storage.subrange(old(self)@.pos as int, old(self)@.storage.len() as int);
                assert(v@ =~= fit(src, newlen as nat));
            }
            self.l = len;
            self.b = v;
            self.pos = 0;
        }
    }

    /// Compacts the storage when `pos` is past `max_buf_size`.
    fn compact(&mut self)
        requires
            old(self)@.wf(),
        ensures
            final(self)@ == old(self)@.compacted(),
            final(self)@.wf(),
    {
        if self.pos > self.max_buf_size {
            self.re_size();
        }
    }

    /// Empties the live window.
    pub fn reset(&mut self)
        requires
            old(self)@.wf(),
        ensures
            final(self)@ == old(self)@.emptied(),
            final(self)@.wf(),
    {
        self.compact();
        self.pos = 0;
        self.l = 0;
    }

    /// The number of live bytes.
    pub fn len(&self) -> (n: usize)
        requires
            self@.wf(),
        ensures
            n == self@.len(),
    {
        self.l - self.pos
    }

    /// Compacts if needed, then grows the storage if `n` more bytes do not fit.
    fn reserve(&mut self, n: usize)
        requires
            old(self)@.wf(),
            old(self)@.can_append(n as nat),
        ensures
            final(self)@ == old(self)@.reserved(n as nat),
            final(self)@.wf(),
    {
        self.compact();
        if self.l + n > self.b.len() {
            self.grow(n);
        }
    }

    /// The storage bytes `[start, end)`, handed out for writing.
    fn window_mut(&mut self, start: usize, end: usize) -> (w: &mut [u8])
        requires
            start <= end <= old(self)@.storage.len(),
        ensures
            w@ == old(self)@.storage.subrange(start as int, end as int),
            final(self)@ == (BufState {
                storage: old(self)@.storage.subrange(0, start as int) + final(w)@
                    + old(self)@.storage.subrange(end as int, old(self)@.storage.len() as int),
                ..old(self)@
            }),
    {
        let all = self.b.as_mut_slice();
        let (front, back) = all.split_at_mut(end);
        let (head, mid) = front.split_at_mut(start);
        assert(has_resolved(back));
        assert(has_resolved(head));
        assert(final(head)@ == old(self)@.storage.subrange(0, start as int));
        assert(final(back)@ == old(self)@.storage.subrange(end as int, old(self)@.storage.len() as int));
        mid
    }

    /// Whether `n` more bytes can be appended: the new end fits in `usize`
    /// and in the storage that growing would give.
    pub fn can_append(&self, n: usize) -> (ok: bool)
        requires
            self@.wf(),
        ensures
            ok == self@.can_append(n as nat),
    {
        let (l, size) = if self.pos > self.max_buf_size {
            let len = self.l - self.pos;
            let newlen = if len > self.max_buf_size {
                len
            } else {
                self.max_buf_size
            };
            (len, newlen)
        } else {
            (self.l, self.b.len())
        };
        if n > usize::MAX - l {
            return false;
        }
        if l + n <= size {
            return true;
        }
        if size > usize::MAX / 2 {
            return false;
        }
        let grown = if 2 * size > n {
            2 * size
        } else {
            n
        };
        l + n <= grown
    }

    /// Extends the live window by `l` bytes and hands out those bytes of the
    /// storage, whatever they hold, for the caller to fill.
    pub fn make(&mut self, l: usize) -> (w: &mut [u8])
        requires
            old(self)@.wf(),
            old(self)@.can_append(l as nat),
        ensures
            w@ == old(self)@.reserved(l as nat).storage.subrange(
                old(self)@.reserved(l as nat).end as int,
                old(self)@.reserved(l as nat).end + l,
            ),
            final(self)@ == (BufState {
                storage: old(self)@.made(l as nat).storage.subrange(0, old(self)@.reserved(l as nat).end as int)
                    + final(w)@ + old(self)@.made(l as nat).storage.subrange(
                    old(self)@.made(l as nat).end as int,
                    old(self)@.made(l as nat).storage.len() as int,
                ),
                ..old(self)@.made(l as nat)
            }),
    {
        self.reserve(l);
        let start = self.l;
        self.l = self.l + l;
        let end = self.l;
        self.window_mut(start, end)
    }

    /// Hands out the `l` storage bytes just past the live window, growing the
    /// storage if needed, without extending the live window.
    pub fn spare(&mut self, l: usize) -> (w: &mut [u8])
        requires
            old(self)@.wf(),
            old(self)@.can_append(l as nat),
        ensures
            w@ == old(self)@.reserved(l as nat).storage.subrange(
                old(self)@.reserved(l as nat).end as int,
                old(self)@.reserved(l as nat).end + l,
            ),
            final(self)@ == (BufState {
                storage: old(self)@.reserved(l as nat).storage.subrange(0, old(self)@.reserved(l as nat).end as int)
                    + final(w)@ + old(self)@.reserved(l as nat).storage.subrange(
                    old(self)@.reserved(l as nat).end + l,
                    old(self)@.reserved(l as nat).storage.len() as int,
                ),
                ..old(self)@.reserved(l as nat)
            }),
    {
        self.reserve(l);
        let start = self.l;
        let end = self.l + l;
        self.window_mut(start, end)
    }

    /// The live bytes as a `String`; they must be valid UTF-8.
    pub fn string(&self) -> (s: String)
        requires
            self@.wf(),
            valid_utf8(self@.content()),
        ensures
            encode_utf8(s@) == self@.content(),
    {
        match str_from_utf8(self.bytes()) {
            Some(text) => text.to_owned(),
            None => String::new(),
        }
    }

    /// Appends `b` to the live bytes.
    pub fn write(&mut self, b: &[u8])
        requires
            old(self)@.wf(),
            old(self)@.can_append(b@.len()),
        ensures
            final(self)@ == old(self)@.appended(b@),
            final(self)@.wf(),
    {
        self.reserve(b.len());
        let ghost r = self@;
        let start = self.l;
        let mut i: usize = 0;
        assert(splice(r.storage, start as int, b@.subrange(0, 0)) =~= r.storage);
        while i < b.len()
            invariant
                r.wf(),
                start == r.end,
                start + b@.len() <= r.storage.len(),
                i <= b@.len(),
                self@ == (BufState { storage: splice(r.storage, start as int, b@.subrange(0, i as int)), ..r }),
            decreases b@.len() - i,
        {
            self.b.set(start + i, b[i]);
            i = i + 1;
            assert(self.b@ =~= splice(r.storage, start as int, b@.subrange(0, i as int)));
        }
        assert(b@.subrange(0, b@.len() as int) =~= b@);
        self.l = start + b.len();
    }

    /// Drops the first `len` live bytes, or all of them when there are not
    /// more than `len`; compacts when the start passes the threshold.
    pub fn shift(&mut self, len: usize)
        requires
            old(self)@.wf(),
        ensures
            final(self)@ == old(self)@.shifted(len as nat),
            final(self)@.wf(),
    {
        if len == 0 {
            return ;
        }
        if len < self.len() {
            self.pos = self.pos + len;
            if self.pos > self.max_buf_size {
                self.re_size();
            }
        } else {
            self.reset();
        }
    }

    /// The live bytes.
    pub fn as_slice(&self) -> (s: &[u8])
        requires
            self@.wf(),
        ensures
            s@ == self@.content(),
    {
        &self.b.as_slice()[self.pos..self.l]
    }

    /// The live bytes, handed out for writing in place.
    pub fn as_mut_slice(&mut self) -> (s: &mut [u8])
        requires
            old(self)@.wf(),
        ensures
            s@ == old(self)@.content(),
            final(self)@ == (BufState {
                storage: old(self)@.storage.subrange(0, old(self)@.pos as int) + final(s)@
                    + old(self)@.storage.subrange(old(self)@.end as int, old(self)@.storage.len() as int),
                ..old(self)@
            }),
    {
        let start = self.pos;
        let end = self.l;
        self.window_mut(start, end)
    }

    /// The live bytes.
    pub fn bytes(&self) -> (s: &[u8])
        requires
            self@.wf(),
        ensures
            s@ == self@.content(),
    {
        &self.b.as_slice()[self.pos..self.l]
    }

    /// Appends the UTF-8 bytes of `s`.
    pub fn write_string(&mut self, s: &str)
        requires
            old(self)@.wf(),
            old(self)@.can_append(s.spec_bytes().len()),
        ensures
            final(self)@ == old(self)@.appended(s.spec_bytes()),
            final(self)@.wf(),
    {
        self.write(s.as_bytes())
    }

    /// Appends one byte.
    pub fn write_byte(&mut self, s: u8)
        requires
            old(self)@.wf(),
            old(self)@.can_append(1),
        ensures
            final(self)@ == old(self)@.appended(seq![s]),
            final(self)@.wf(),
    {
        self.reserve(1);
        let at = self.l;
        self.b.set(at, s);
        self.l = at + 1;
        assert(self.b@ =~= splice(old(self)@.reserved(1).storage, at as int, seq![s]));
    }

    /// Keeps at most `len` live bytes: drops those past `pos + len`; a
    /// larger `len` changes nothing.
    pub fn truncate(&mut self, len: usize)
        requires
            old(self)@.wf(),
        ensures
            final(self)@ == old(self)@.truncated(len as nat),
            final(self)@.wf(),
    {
        if len < self.l - self.pos {
            self.l = self.pos + len;
        }
    }

    /// Accounts for `size` bytes read into the spare storage: a read of 0
    /// bytes means the peer closed the connection, and the live bytes may
    /// not pass `max_package_size`.
    pub fn buffer_add_size(&mut self, size: usize, max_package_size: usize) -> (res: Result<
        (),
        NetError,
    >)
        requires
            old(self)@.wf(),
        ensures
            final(self)@.wf(),
            size == 0 ==> (res matches Err(NetError::TcpDisconnected) && final(self)@ == old(self)@),
            size > 0 && old(self)@.len() + size > max_package_size ==> (res matches Err(
                NetError::LargePackage,
            ) && final(self)@ == old(self)@),
            size > 0 && old(self)@.len() + size <= max_package_size ==> (res is Ok && final(self)@
                == old(self)@.extended(size as nat)),
    {
        if size == 0 {
            return Err(NetError::TcpDisconnected);
        }
        let len = self.l - self.pos;
        if len > max_package_size || size > max_package_size - len {
            return Err(NetError::LargePackage);
        }
        if size <= self.b.len() - self.l {
            self.l = self.l + size;
        } else {
            self.l = self.b.len();
        }
        Ok(())
    }
}

} // verus!

verus! {

/// Compaction moves the live bytes to the front and keeps them.
pub proof fn law_compaction_keeps_content(s: BufState)
    requires
        s.wf(),
    ensures
        s.compacted().wf(),
        s.compacted().content() == s.content(),
{
    if s.pos > s.max_size {
        let len = (s.end - s.pos) as nat;
        let src = s.storage.subrange(s.pos as int, s.storage.len() as int);
        let n = max_nat(len, s.max_size);
        assert(fit(src, n).subrange(0, len as int) =~= s.content());
    }
}

/// Appending `w` adds `w` after the live bytes, unless the storage has to
/// grow while the live bytes do not start at the front: growing moves the
/// bytes from `pos` on to the front but keeps `pos`.
pub proof fn law_append(s: BufState, w: Seq<u8>)
    requires
        s.wf(),
        s.can_append(w.len()),
        s.compacted().pos == 0 || s.compacted().end + w.len() <= s.compacted().storage.len(),
    ensures
        s.appended(w).content() == s.content() + w,
        s.appended(w).len() == s.len() + w.len(),
{
    law_compaction_keeps_content(s);
    let c = s.compacted();
    let r = s.reserved(w.len());
    if c.end + w.len() > c.storage.len() {
        assert(c.pos == 0);
        assert(r.storage.subrange(0, c.end as int) =~= c.storage.subrange(0, c.end as int));
    }
    assert(r.content() == c.content());
    let a = s.appended(w);
    assert(a.content() =~= r.content() + w);
}

/// Shifting `n` bytes drops the first `n` live bytes, or all of them when
/// there are not more than `n`.
pub proof fn law_shift(s: BufState, n: nat)
    requires
        s.wf(),
    ensures
        s.shifted(n).wf(),
        s.shifted(n).content() == if n == 0 {
            s.content()
        } else if n < s.len() {
            s.content().subrange(n as int, s.len() as int)
        } else {
            Seq::<u8>::empty()
        },
{
    if n == 0 {
    } else if n < s.len() {
        let t = BufState { pos: s.pos + n, ..s };
        law_compaction_keeps_content(t);
        assert(t.content() =~= s.content().subrange(n as int, s.len() as int));
        if t.pos > t.max_size {
            assert(t.compacted() == t.resized());
        }
    } else {
        law_compaction_keeps_content(s);
        assert(s.emptied().content() =~= Seq::<u8>::empty());
    }
}

/// Truncating to `n` keeps the first `n` live bytes.
pub proof fn law_truncate(s: BufState, n: nat)
    requires
        s.wf(),
    ensures
        s.truncated(n).wf(),
        s.truncated(n).content() == s.content().subrange(
            0,
            if n < s.len() {
                n as int
            } else {
                s.len() as int
            },
        ),
{
    assert(s.truncated(n).content() =~= s.content().subrange(
        0,
        if n < s.len() {
            n as int
        } else {
            s.len() as int
        },
    ));
}

/// After `make(n)`, once the caller has filled the handed-out bytes with
/// `w`, the live bytes are the old ones followed by `w`, with the same
/// exception as for appending.
pub proof fn law_make(s: BufState, w: Seq<u8>)
    requires
        s.wf(),
        s.can_append(w.len()),
        s.compacted().pos == 0 || s.compacted().end + w.len() <= s.compacted().storage.len(),
    ensures
        (BufState {
            storage: s.made(w.len()).storage.subrange(0, s.reserved(w.len()).end as int) + w
                + s.made(w.len()).storage.subrange(
                s.made(w.len()).end as int,
                s.made(w.len()).storage.len() as int,
            ),
            ..s.made(w.len())
        }).content() == s.content() + w,
{
    law_append(s, w);
    let r = s.reserved(w.len());
    let filled = BufState {
        storage: r.storage.subrange(0, r.end as int) + w + r.storage.subrange(
            (r.end + w.len()) as int,
            r.storage.len() as int,
        ),
        ..s.made(w.len())
    };
    assert(filled.storage =~= s.appended(w).storage);
}

/// The bytes a read put past the live window join it: all `size` of them
/// when they fit in the storage, else those up to its end.
pub proof fn law_extended(s: BufState, size: nat)
    requires
        s.wf(),
    ensures
        s.extended(size).wf(),
        s.extended(size).content() == s.content() + s.storage.subrange(
            s.end as int,
            s.extended(size).end as int,
        ),
        s.end + size <= s.storage.len() ==> {
            &&& s.extended(size).len() == s.len() + size
            &&& s.extended(size).content() == s.content() + s.storage.subrange(
                s.end as int,
                (s.end + size) as int,
            )
        },
        s.end + size > s.storage.len() ==> s.extended(size).content() == s.content()
            + s.storage.subrange(s.end as int, s.storage.len() as int),
{
    assert(s.extended(size).content() =~= s.content() + s.storage.subrange(
        s.end as int,
        s.extended(size).end as int,
    ));
}

/// Emptying leaves no live bytes.
pub proof fn law_reset(s: BufState)
    requires
        s.wf(),
    ensures
        s.emptied().wf(),
        s.emptied().content() == Seq::<u8>::empty(),
{
    law_compaction_keeps_content(s);
    assert(s.emptied().content() =~= Seq::<u8>::empty());
}

} // verus!
