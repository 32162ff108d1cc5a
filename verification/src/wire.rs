//! The three field encodings that every body is made of: integers in
//! network byte order, strings that end at a zero byte, and the message
//! content behind its one length byte.

use vstd::prelude::*;
use vstd::slice::slice_subrange;
use vstd::slice::slice_to_vec;

verus! {

/// The four bytes of `v`, most significant first.
pub open spec fn be32(v: u32) -> Seq<u8> {
    seq![
        ((v >> 24) & 0xff) as u8,
        ((v >> 16) & 0xff) as u8,
        ((v >> 8) & 0xff) as u8,
        (v & 0xff) as u8,
    ]
}

/// The number whose most significant byte is `b[at]` and whose least
/// significant byte is `b[at + 3]`.
pub open spec fn be32_at(b: Seq<u8>, at: int) -> u32 {
    ((b[at] as u32) << 24) | ((b[at + 1] as u32) << 16) | ((b[at + 2] as u32) << 8) | (b[at + 3] as u32)
}

/// Reading back the four bytes of a number gives the number.
pub proof fn lemma_be32_round_trip(v: u32)
    ensures
        be32(v).len() == 4,
        be32_at(be32(v), 0) == v,
{
    let b0 = ((v >> 24) & 0xff) as u8;
    let b1 = ((v >> 16) & 0xff) as u8;
    let b2 = ((v >> 8) & 0xff) as u8;
    let b3 = (v & 0xff) as u8;
    assert(((b0 as u32) << 24) | ((b1 as u32) << 16) | ((b2 as u32) << 8) | (b3 as u32) == v) by (bit_vector)
        requires
            b0 == ((v >> 24) & 0xff) as u8,
            b1 == ((v >> 16) & 0xff) as u8,
            b2 == ((v >> 8) & 0xff) as u8,
            b3 == (v & 0xff) as u8,
    ;
}

/// The index of the first zero byte of `b`, or the length of `b` where it
/// holds none.
pub open spec fn nul_position(b: Seq<u8>) -> int
    decreases b.len(),
{
    if b.len() == 0 || b[0] == 0 {
        0
    } else {
        1 + nul_position(b.drop_first())
    }
}

/// No byte of `s` is zero.
pub open spec fn nul_free(s: Seq<u8>) -> bool {
    forall|i: int| 0 <= i < s.len() ==> s[i] != 0
}

/// `nul_position` is the one index with a zero byte and none before it.
pub proof fn lemma_nul_position(b: Seq<u8>, n: int)
    requires
        0 <= n <= b.len(),
        forall|i: int| 0 <= i < n ==> b[i] != 0,
        n == b.len() || b[n] == 0,
    ensures
        nul_position(b) == n,
    decreases n,
{
    if n > 0 {
        let t = b.drop_first();
        assert forall|i: int| 0 <= i < n - 1 implies t[i] != 0 by {
            assert(t[i] == b[i + 1]);
        }
        lemma_nul_position(t, n - 1);
    }
}

/// What `nul_position` promises of every sequence.
pub proof fn lemma_nul_position_bounds(b: Seq<u8>)
    ensures
        0 <= nul_position(b) <= b.len(),
        forall|i: int| 0 <= i < nul_position(b) ==> b[i] != 0,
        nul_position(b) < b.len() ==> b[nul_position(b)] == 0,
    decreases b.len(),
{
    if b.len() == 0 || b[0] == 0 {
    } else {
        let t = b.drop_first();
        lemma_nul_position_bounds(t);
        assert forall|i: int| 0 <= i < nul_position(b) implies b[i] != 0 by {
            if i > 0 {
                assert(b[i] == t[i - 1]);
            }
        }
        if nul_position(b) < b.len() {
            assert(b[nul_position(b)] == t[nul_position(t)]);
        }
    }
}

/// A position in a body while its fields are taken off its front one after
/// the other. Once a field is missing, `ok` is false for good and `rest` is
/// empty.
pub struct Cursor {
    pub ok: bool,
    pub rest: Seq<u8>,
}

impl Cursor {
    pub open spec fn start(b: Seq<u8>) -> Cursor {
        Cursor { ok: true, rest: b }
    }

    pub open spec fn failed() -> Cursor {
        Cursor { ok: false, rest: Seq::empty() }
    }

    /// One byte is there to take.
    pub open spec fn has_byte(self) -> bool {
        self.ok && self.rest.len() >= 1
    }

    pub open spec fn byte(self) -> u8 {
        if self.has_byte() {
            self.rest[0]
        } else {
            0
        }
    }

    pub open spec fn after_byte(self) -> Cursor {
        if self.has_byte() {
            Cursor::start(self.rest.subrange(1, self.rest.len() as int))
        } else {
            Cursor::failed()
        }
    }

    /// A string of fewer than `limit` bytes and its closing zero are there
    /// to take: `limit` counts the zero.
    pub open spec fn has_c_string(self, limit: int) -> bool {
        self.ok && nul_position(self.rest) < self.rest.len() && nul_position(self.rest) < limit
    }

    /// The string without its closing zero.
    pub open spec fn c_string(self, limit: int) -> Seq<u8> {
        if self.has_c_string(limit) {
            self.rest.subrange(0, nul_position(self.rest))
        } else {
            Seq::empty()
        }
    }

    pub open spec fn after_c_string(self, limit: int) -> Cursor {
        if self.has_c_string(limit) {
            Cursor::start(self.rest.subrange(nul_position(self.rest) + 1, self.rest.len() as int))
        } else {
            Cursor::failed()
        }
    }

    /// A length byte and as many bytes as it announces are there to take.
    pub open spec fn has_octets(self) -> bool {
        self.ok && self.rest.len() >= 1 && self.rest.len() >= 1 + self.rest[0]
    }

    /// The bytes behind the length byte.
    pub open spec fn octets(self) -> Seq<u8> {
        if self.has_octets() {
            self.rest.subrange(1, 1 + self.rest[0])
        } else {
            Seq::empty()
        }
    }

    pub open spec fn after_octets(self) -> Cursor {
        if self.has_octets() {
            Cursor::start(self.rest.subrange(1 + self.rest[0], self.rest.len() as int))
        } else {
            Cursor::failed()
        }
    }

    /// Everything that is left.
    pub open spec fn remainder(self) -> Seq<u8> {
        if self.ok {
            self.rest
        } else {
            Seq::empty()
        }
    }

    /// Nothing is left, and nothing was missing.
    pub open spec fn at_end(self) -> bool {
        self.ok && self.rest.len() == 0
    }
}

/// A string as it stands in a body: its bytes, then a zero.
pub open spec fn c_string_bytes(s: Seq<u8>) -> Seq<u8> {
    s.push(0)
}

/// Message content as it stands in a body: its length in one byte, then its
/// bytes.
pub open spec fn octets_bytes(s: Seq<u8>) -> Seq<u8> {
    seq![s.len() as u8] + s
}

/// A byte written in front of `r` is the byte taken off it.
pub proof fn lemma_take_byte(v: u8, r: Seq<u8>)
    ensures
        Cursor::start(seq![v] + r).has_byte(),
        Cursor::start(seq![v] + r).byte() == v,
        Cursor::start(seq![v] + r).after_byte() == Cursor::start(r),
{
    let w = seq![v] + r;
    assert(w.subrange(1, w.len() as int) =~= r);
}

/// A string written in front of `r` is the string taken off it, where it
/// has no zero byte and fits its limit.
pub proof fn lemma_take_c_string(s: Seq<u8>, r: Seq<u8>, limit: int)
    requires
        nul_free(s),
        s.len() < limit,
    ensures
        Cursor::start(c_string_bytes(s) + r).has_c_string(limit),
        Cursor::start(c_string_bytes(s) + r).c_string(limit) == s,
        Cursor::start(c_string_bytes(s) + r).after_c_string(limit) == Cursor::start(r),
{
    let w = c_string_bytes(s) + r;
    let n = s.len() as int;
    assert forall|i: int| 0 <= i < n implies w[i] != 0 by {
        assert(w[i] == s[i]);
    }
    assert(w[n] == 0);
    lemma_nul_position(w, n);
    assert(w.subrange(0, n) =~= s);
    assert(w.subrange(n + 1, w.len() as int) =~= r);
}

/// Content written in front of `r` is the content taken off it, where its
/// length fits one byte.
pub proof fn lemma_take_octets(s: Seq<u8>, r: Seq<u8>)
    requires
        s.len() <= 255,
    ensures
        Cursor::start(octets_bytes(s) + r).has_octets(),
        Cursor::start(octets_bytes(s) + r).octets() == s,
        Cursor::start(octets_bytes(s) + r).after_octets() == Cursor::start(r),
{
    let w = octets_bytes(s) + r;
    let n = s.len() as int;
    assert(w[0] == n as u8);
    assert(w.subrange(1, 1 + n) =~= s);
    assert(w.subrange(1 + n, w.len() as int) =~= r);
}

/// A byte that was taken, written in front of what was left, is what was
/// there.
pub proof fn lemma_byte_written_back(c: Cursor)
    requires
        c.has_byte(),
    ensures
        c.rest == seq![c.byte()] + c.after_byte().rest,
{
    assert(c.rest =~= seq![c.byte()] + c.after_byte().rest);
}

/// A string that was taken, written in front of what was left, is what was
/// there.
pub proof fn lemma_c_string_written_back(c: Cursor, limit: int)
    requires
        c.has_c_string(limit),
    ensures
        c.rest == c_string_bytes(c.c_string(limit)) + c.after_c_string(limit).rest,
{
    lemma_nul_position_bounds(c.rest);
    assert(c.rest =~= c_string_bytes(c.c_string(limit)) + c.after_c_string(limit).rest);
}

/// Content that was taken, written in front of what was left, is what was
/// there.
pub proof fn lemma_octets_written_back(c: Cursor)
    requires
        c.has_octets(),
    ensures
        c.rest == octets_bytes(c.octets()) + c.after_octets().rest,
{
    assert(c.rest =~= octets_bytes(c.octets()) + c.after_octets().rest);
}

/// The four bytes of the number that four bytes stand for are those bytes.
pub proof fn lemma_be32_written_back(b: Seq<u8>, at: int)
    requires
        0 <= at,
        at + 4 <= b.len(),
    ensures
        be32(be32_at(b, at)) == b.subrange(at, at + 4),
{
    let b0 = b[at];
    let b1 = b[at + 1];
    let b2 = b[at + 2];
    let b3 = b[at + 3];
    let v = be32_at(b, at);
    assert(((v >> 24) & 0xff) as u8 == b0 && ((v >> 16) & 0xff) as u8 == b1 && ((v >> 8) & 0xff) as u8
        == b2 && (v & 0xff) as u8 == b3) by (bit_vector)
        requires
            v == ((b0 as u32) << 24) | ((b1 as u32) << 16) | ((b2 as u32) << 8) | (b3 as u32),
    ;
    assert(be32(v) =~= b.subrange(at, at + 4));
}

/// Appends the four bytes of `v`, most significant first.
pub fn put_u32(out: &mut Vec<u8>, v: u32)
    ensures
        final(out)@ == old(out)@ + be32(v),
{
    out.push(((v >> 24) & 0xff) as u8);
    out.push(((v >> 16) & 0xff) as u8);
    out.push(((v >> 8) & 0xff) as u8);
    out.push((v & 0xff) as u8);
    assert(out@ =~= old(out)@ + be32(v));
}

/// Appends `s` and its closing zero.
pub fn put_c_string(out: &mut Vec<u8>, s: &Vec<u8>)
    ensures
        final(out)@ == old(out)@ + c_string_bytes(s@),
{
    out.extend_from_slice(s.as_slice());
    out.push(0);
    assert(out@ =~= old(out)@ + c_string_bytes(s@));
}

/// Appends the length of `s` in one byte, then `s`.
pub fn put_octets(out: &mut Vec<u8>, s: &Vec<u8>)
    requires
        s@.len() <= 255,
    ensures
        final(out)@ == old(out)@ + octets_bytes(s@),
{
    out.push(s.len() as u8);
    out.extend_from_slice(s.as_slice());
    assert(out@ =~= old(out)@ + octets_bytes(s@));
}

/// Reads the number in the four bytes from `at` on.
pub fn get_u32(buf: &[u8], at: usize) -> (v: u32)
    requires
        at + 4 <= buf@.len(),
    ensures
        v == be32_at(buf@, at as int),
{
    ((buf[at] as u32) << 24) | ((buf[at + 1] as u32) << 16) | ((buf[at + 2] as u32) << 8) | (
    buf[at + 3] as u32)
}

/// Takes the fields of one body off its front. It follows a `Cursor` step by
/// step: after a field was missing every later one is missing too.
pub struct Reader<'a> {
    buf: &'a [u8],
    pos: usize,
    ok: bool,
}

impl<'a> Reader<'a> {
    #[verifier::type_invariant]
    spec fn inv(self) -> bool {
        self.pos <= self.buf@.len()
    }

    /// Where the reader stands.
    pub closed spec fn cursor(&self) -> Cursor {
        if self.ok {
            Cursor::start(self.buf@.subrange(self.pos as int, self.buf@.len() as int))
        } else {
            Cursor::failed()
        }
    }

    pub fn new(buf: &'a [u8]) -> (r: Reader<'a>)
        ensures
            r.cursor() == Cursor::start(buf@),
    {
        assert(buf@.subrange(0, buf@.len() as int) =~= buf@);
        Reader { buf, pos: 0, ok: true }
    }

    /// No field was missing so far.
    pub fn is_ok(&self) -> (b: bool)
        ensures
            b == self.cursor().ok,
    {
        self.ok
    }

    /// No field was missing, and no byte is left.
    pub fn at_end(&self) -> (b: bool)
        ensures
            b == self.cursor().at_end(),
    {
        proof {
            use_type_invariant(self);
        }
        self.ok && self.pos == self.buf.len()
    }

    pub fn byte(&mut self) -> (v: u8)
        ensures
            v == old(self).cursor().byte(),
            final(self).cursor() == old(self).cursor().after_byte(),
    {
        proof {
            use_type_invariant(&*self);
        }
        if self.ok && self.pos < self.buf.len() {
            let v = self.buf[self.pos];
            proof {
                let rest = self.buf@.subrange(self.pos as int, self.buf@.len() as int);
                assert(rest.subrange(1, rest.len() as int) =~= self.buf@.subrange(
                    self.pos + 1,
                    self.buf@.len() as int,
                ));
            }
            self.pos = self.pos + 1;
            v
        } else {
            self.ok = false;
            0
        }
    }

    pub fn c_string(&mut self, limit: usize) -> (s: Vec<u8>)
        ensures
            s@ == old(self).cursor().c_string(limit as int),
            final(self).cursor() == old(self).cursor().after_c_string(limit as int),
    {
        proof {
            use_type_invariant(&*self);
        }
        if !self.ok {
            return Vec::new();
        }
        let ghost rest = self.buf@.subrange(self.pos as int, self.buf@.len() as int);
        let start = self.pos;
        let mut i: usize = self.pos;
        while i < self.buf.len() && i - start < limit && self.buf[i] != 0
            invariant
                start <= i <= self.buf@.len(),
                i - start <= limit,
                self.pos == start,
                self.ok,
                rest == self.buf@.subrange(start as int, self.buf@.len() as int),
                forall|j: int| 0 <= j < i - start ==> rest[j] != 0,
            decreases self.buf@.len() - i,
        {
            i = i + 1;
        }
        if i < self.buf.len() && i - start < limit {
            proof {
                assert(rest[i - start] == 0);
                lemma_nul_position(rest, i - start);
                assert(rest.subrange(i - start + 1, rest.len() as int) =~= self.buf@.subrange(
                    i + 1,
                    self.buf@.len() as int,
                ));
            }
            let s = slice_to_vec(slice_subrange(self.buf, start, i));
            assert(s@ =~= rest.subrange(0, i - start));
            self.pos = i + 1;
            s
        } else {
            proof {
                lemma_nul_position_bounds(rest);
                if i < self.buf@.len() {
                    // `limit` bytes without a zero
                    assert(i - start == limit);
                    if nul_position(rest) < limit {
                        assert(rest[nul_position(rest)] == 0);
                    }
                } else {
                    if nul_position(rest) < rest.len() {
                        assert(rest[nul_position(rest)] == 0);
                    }
                }
            }
            self.ok = false;
            Vec::new()
        }
    }

    pub fn octets(&mut self) -> (s: Vec<u8>)
        ensures
            s@ == old(self).cursor().octets(),
            final(self).cursor() == old(self).cursor().after_octets(),
    {
        proof {
            use_type_invariant(&*self);
        }
        if self.ok && self.pos < self.buf.len() {
            let n = self.buf[self.pos] as usize;
            if self.buf.len() - self.pos > n {
                let ghost rest = self.buf@.subrange(self.pos as int, self.buf@.len() as int);
                let from = self.pos + 1;
                let s = slice_to_vec(slice_subrange(self.buf, from, from + n));
                proof {
                    assert(rest[0] == n);
                    assert(s@ =~= rest.subrange(1, 1 + n));
                    assert(rest.subrange(1 + n, rest.len() as int) =~= self.buf@.subrange(
                        from + n,
                        self.buf@.len() as int,
                    ));
                }
                self.pos = from + n;
                return s;
            }
        }
        self.ok = false;
        Vec::new()
    }

    /// All the bytes that are left.
    pub fn remainder(&mut self) -> (s: Vec<u8>)
        ensures
            s@ == old(self).cursor().remainder(),
            final(self).cursor().ok == old(self).cursor().ok,
            final(self).cursor().rest.len() == 0,
    {
        proof {
            use_type_invariant(&*self);
        }
        if self.ok {
            let s = slice_to_vec(slice_subrange(self.buf, self.pos, self.buf.len()));
            self.pos = self.buf.len();
            s
        } else {
            Vec::new()
        }
    }
}

} // verus!
