//! Forward-only byte cursor over an immutable buffer.
//!
//! Every read either consumes exactly what it decodes or reports an underrun
//! by returning `None` (a failed fixed-width read leaves the position). The
//! specification-level readers (`spec_read_*`) return the decoded value
//! together with the position after the read; the executable methods are
//! proved to agree with them exactly.

use vstd::prelude::*;

verus! {

/// Little-endian value of a two-byte sequence.
pub open spec fn le16(b: Seq<u8>) -> u16
    recommends
        b.len() == 2,
{
    (b[0] + b[1] * 0x100) as u16
}

/// Little-endian value of a four-byte sequence.
pub open spec fn le32(b: Seq<u8>) -> u32
    recommends
        b.len() == 4,
{
    (b[0] + b[1] * 0x100 + b[2] * 0x10000 + b[3] * 0x1000000) as u32
}

/// Little-endian value of an eight-byte sequence.
pub open spec fn le64(b: Seq<u8>) -> u64
    recommends
        b.len() == 8,
{
    (b[0] + b[1] * 0x100 + b[2] * 0x10000 + b[3] * 0x1000000 + b[4] * 0x100000000
        + b[5] * 0x10000000000 + b[6] * 0x1000000000000 + b[7] * 0x100000000000000) as u64
}

/// Read one byte at position `i`, or fail on underrun.
pub open spec fn spec_read_u8(s: Seq<u8>, i: int) -> Option<(u8, int)> {
    if 0 <= i && i + 1 <= s.len() {
        Some((s[i], i + 1))
    } else {
        None
    }
}

/// Read a little-endian `u16` at position `i`.
pub open spec fn spec_read_u16_le(s: Seq<u8>, i: int) -> Option<(u16, int)> {
    if 0 <= i && i + 2 <= s.len() {
        Some((le16(s.subrange(i, i + 2)), i + 2))
    } else {
        None
    }
}

/// Read a little-endian `u32` at position `i`.
pub open spec fn spec_read_u32_le(s: Seq<u8>, i: int) -> Option<(u32, int)> {
    if 0 <= i && i + 4 <= s.len() {
        Some((le32(s.subrange(i, i + 4)), i + 4))
    } else {
        None
    }
}

/// Read a little-endian `u64` at position `i`.
pub open spec fn spec_read_u64_le(s: Seq<u8>, i: int) -> Option<(u64, int)> {
    if 0 <= i && i + 8 <= s.len() {
        Some((le64(s.subrange(i, i + 8)), i + 8))
    } else {
        None
    }
}

/// Read `n` raw bytes at position `i`.
pub open spec fn spec_read_bytes(s: Seq<u8>, i: int, n: int) -> Option<(Seq<u8>, int)> {
    if 0 <= i && 0 <= n && i + n <= s.len() {
        Some((s.subrange(i, i + n), i + n))
    } else {
        None
    }
}

/// Read a variable-length unsigned integer: one tag byte, which either is the
/// value itself (below `0xfd`) or announces a 2-, 4- or 8-byte little-endian
/// payload (`0xfd`, `0xfe`, `0xff`). Redundantly long encodings are accepted.
pub open spec fn spec_read_varuint(s: Seq<u8>, i: int) -> Option<(u64, int)> {
    match spec_read_u8(s, i) {
        None => None,
        Some((first, j)) => if first == 0xfd {
            match spec_read_u16_le(s, j) {
                None => None,
                Some((v, k)) => Some((v as u64, k)),
            }
        } else if first == 0xfe {
            match spec_read_u32_le(s, j) {
                None => None,
                Some((v, k)) => Some((v as u64, k)),
            }
        } else if first == 0xff {
            spec_read_u64_le(s, j)
        } else {
            Some((first as u64, j))
        },
    }
}

/// Read a varuint length prefix followed by that many raw bytes.
pub open spec fn spec_read_varuint_bytes(s: Seq<u8>, i: int) -> Option<(Seq<u8>, int)> {
    match spec_read_varuint(s, i) {
        None => None,
        Some((n, j)) => spec_read_bytes(s, j, n as int),
    }
}

/// Read exactly `n` varuint-prefixed byte blobs in sequence.
pub open spec fn spec_read_blobs_n(s: Seq<u8>, i: int, n: nat) -> Option<(Seq<Seq<u8>>, int)>
    decreases n,
{
    if n == 0 {
        Some((Seq::empty(), i))
    } else {
        match spec_read_varuint_bytes(s, i) {
            None => None,
            Some((x, j)) => match spec_read_blobs_n(s, j, (n - 1) as nat) {
                None => None,
                Some((xs, k)) => Some((seq![x] + xs, k)),
            },
        }
    }
}

/// Read a varuint count, then that many varuint-prefixed byte blobs.
pub open spec fn spec_read_blob_list(s: Seq<u8>, i: int) -> Option<(Seq<Seq<u8>>, int)> {
    match spec_read_varuint(s, i) {
        None => None,
        Some((n, j)) => spec_read_blobs_n(s, j, n as nat),
    }
}

/// Prepend already-read elements to the outcome of reading the rest.
pub open spec fn append_parsed<T>(pre: Seq<T>, r: Option<(Seq<T>, int)>) -> Option<(Seq<T>, int)> {
    match r {
        None => None,
        Some((xs, k)) => Some((pre + xs, k)),
    }
}

/// Shifting one freshly read element from the rest onto the prefix leaves the
/// composed outcome unchanged.
pub proof fn lemma_append_parsed_step<T>(pre: Seq<T>, x: T, r: Option<(Seq<T>, int)>)
    ensures
        append_parsed(
            pre,
            match r {
                None => None,
                Some((xs, k)) => Some((seq![x] + xs, k)),
            },
        ) == append_parsed(pre.push(x), r),
{
    match r {
        None => {},
        Some((xs, k)) => {
            assert(pre + (seq![x] + xs) =~= pre.push(x) + xs);
        },
    }
}

/// A forward-only cursor over a borrowed byte buffer. The position only
/// advances, and never past the end of the buffer.
pub struct Reader<'a> {
    buf: &'a [u8],
    pos: usize,
}

impl<'a> Reader<'a> {
    /// The whole underlying buffer, which never changes.
    pub closed spec fn bytes(&self) -> Seq<u8> {
        self.buf@
    }

    /// The current read position.
    pub closed spec fn position(&self) -> int {
        self.pos as int
    }

    /// The position never exceeds the buffer length.
    pub open spec fn wf(&self) -> bool {
        0 <= self.position() <= self.bytes().len()
    }

    /// A cursor standing at the start of `buf`.
    pub fn new(buf: &'a [u8]) -> (r: Reader<'a>)
        ensures
            r.bytes() == buf@,
            r.position() == 0,
            r.wf(),
    {
        Reader { buf, pos: 0 }
    }

    /// How many bytes are left to read.
    pub fn remaining(&self) -> (n: usize)
        requires
            self.wf(),
        ensures
            n == self.bytes().len() - self.position(),
    {
        self.buf.len() - self.pos
    }

    /// Read one byte.
    pub fn get_u8(&mut self) -> (r: Option<u8>)
        requires
            old(self).wf(),
        ensures
            final(self).bytes() == old(self).bytes(),
            final(self).wf(),
            match spec_read_u8(old(self).bytes(), old(self).position()) {
                Some((v, j)) => r == Some(v) && final(self).position() == j,
                None => r is None && final(self).position() == old(self).position(),
            },
    {
        if self.pos < self.buf.len() {
            let b = self.buf[self.pos];
            self.pos = self.pos + 1;
            Some(b)
        } else {
            None
        }
    }

    /// Read a little-endian `u16`.
    pub fn get_u16_le(&mut self) -> (r: Option<u16>)
        requires
            old(self).wf(),
        ensures
            final(self).bytes() == old(self).bytes(),
            final(self).wf(),
            match spec_read_u16_le(old(self).bytes(), old(self).position()) {
                Some((v, j)) => r == Some(v) && final(self).position() == j,
                None => r is None && final(self).position() == old(self).position(),
            },
    {
        if self.buf.len() - self.pos >= 2 {
            let b0 = self.buf[self.pos];
            let b1 = self.buf[self.pos + 1];
            let v: u16 = b0 as u16 + b1 as u16 * 0x100;
            self.pos = self.pos + 2;
            assert(v == le16(old(self).bytes().subrange(
                old(self).position(),
                old(self).position() + 2,
            )));
            Some(v)
        } else {
            None
        }
    }

    /// Read a little-endian `u32`.
    pub fn get_u32_le(&mut self) -> (r: Option<u32>)
        requires
            old(self).wf(),
        ensures
            final(self).bytes() == old(self).bytes(),
            final(self).wf(),
            match spec_read_u32_le(old(self).bytes(), old(self).position()) {
                Some((v, j)) => r == Some(v) && final(self).position() == j,
                None => r is None && final(self).position() == old(self).position(),
            },
    {
        if self.buf.len() - self.pos >= 4 {
            let b0 = self.buf[self.pos];
            let b1 = self.buf[self.pos + 1];
            let b2 = self.buf[self.pos + 2];
            let b3 = self.buf[self.pos + 3];
            let v: u32 = b0 as u32 + b1 as u32 * 0x100 + b2 as u32 * 0x10000
                + b3 as u32 * 0x1000000;
            self.pos = self.pos + 4;
            assert(v == le32(old(self).bytes().subrange(
                old(self).position(),
                old(self).position() + 4,
            )));
            Some(v)
        } else {
            None
        }
    }

    /// Read a little-endian `u64`.
    pub fn get_u64_le(&mut self) -> (r: Option<u64>)
        requires
            old(self).wf(),
        ensures
            final(self).bytes() == old(self).bytes(),
            final(self).wf(),
            match spec_read_u64_le(old(self).bytes(), old(self).position()) {
                Some((v, j)) => r == Some(v) && final(self).position() == j,
                None => r is None && final(self).position() == old(self).position(),
            },
    {
        if self.buf.len() - self.pos >= 8 {
            let b0 = self.buf[self.pos];
            let b1 = self.buf[self.pos + 1];
            let b2 = self.buf[self.pos + 2];
            let b3 = self.buf[self.pos + 3];
            let b4 = self.buf[self.pos + 4];
            let b5 = self.buf[self.pos + 5];
            let b6 = self.buf[self.pos + 6];
            let b7 = self.buf[self.pos + 7];
            let v: u64 = b0 as u64 + b1 as u64 * 0x100 + b2 as u64 * 0x10000
                + b3 as u64 * 0x1000000 + b4 as u64 * 0x100000000 + b5 as u64 * 0x10000000000
                + b6 as u64 * 0x1000000000000 + b7 as u64 * 0x100000000000000;
            self.pos = self.pos + 8;
            assert(v == le64(old(self).bytes().subrange(
                old(self).position(),
                old(self).position() + 8,
            )));
            Some(v)
        } else {
            None
        }
    }

    /// Read `n` raw bytes into an owned vector.
    pub fn get_bytes(&mut self, n: usize) -> (r: Option<Vec<u8>>)
        requires
            old(self).wf(),
        ensures
            final(self).bytes() == old(self).bytes(),
            final(self).wf(),
            match spec_read_bytes(old(self).bytes(), old(self).position(), n as int) {
                Some((bs, j)) => r matches Some(v) && v@ == bs && final(self).position() == j,
                None => r is None && final(self).position() == old(self).position(),
            },
    {
        if self.buf.len() - self.pos >= n {
            let sl = vstd::slice::slice_subrange(self.buf, self.pos, self.pos + n);
            let v = vstd::slice::slice_to_vec(sl);
            self.pos = self.pos + n;
            Some(v)
        } else {
            None
        }
    }

    /// Read a variable-length unsigned integer (see `spec_read_varuint`).
    pub fn get_varuint(&mut self) -> (r: Option<u64>)
        requires
            old(self).wf(),
        ensures
            final(self).bytes() == old(self).bytes(),
            final(self).wf(),
            match spec_read_varuint(old(self).bytes(), old(self).position()) {
                Some((v, j)) => r == Some(v) && final(self).position() == j,
                None => r is None && final(self).position() == old(self).position(),
            },
    {
        let start = self.pos;
        match self.get_u8() {
            None => None,
            Some(first) => {
                let r = if first == 0xfd {
                    match self.get_u16_le() {
                        None => None,
                        Some(v) => Some(v as u64),
                    }
                } else if first == 0xfe {
                    match self.get_u32_le() {
                        None => None,
                        Some(v) => Some(v as u64),
                    }
                } else if first == 0xff {
                    self.get_u64_le()
                } else {
                    Some(first as u64)
                };
                if r.is_none() {
                    self.pos = start;
                }
                r
            },
        }
    }

    /// Read a varuint length prefix followed by that many raw bytes.
    pub fn get_varuint_slice(&mut self) -> (r: Option<Vec<u8>>)
        requires
            old(self).wf(),
        ensures
            final(self).bytes() == old(self).bytes(),
            final(self).wf(),
            match spec_read_varuint_bytes(old(self).bytes(), old(self).position()) {
                Some((bs, j)) => r matches Some(v) && v@ == bs && final(self).position() == j,
                None => r is None && final(self).position() == old(self).position(),
            },
    {
        let start = self.pos;
        match self.get_varuint() {
            None => None,
            Some(n) => {
                let rem = self.remaining();
                if n > rem as u64 {
                    // More bytes were announced than the buffer still holds.
                    self.pos = start;
                    None
                } else {
                    match self.get_bytes(n as usize) {
                        None => {
                            self.pos = start;
                            None
                        },
                        Some(v) => Some(v),
                    }
                }
            },
        }
    }

    /// Read a varuint count, then that many varuint-prefixed byte blobs (a
    /// witness stack).
    #[verifier::loop_isolation(false)]
    pub fn get_varuint_slice_vec(&mut self) -> (r: Option<Vec<Vec<u8>>>)
        requires
            old(self).wf(),
        ensures
            final(self).bytes() == old(self).bytes(),
            final(self).wf(),
            match spec_read_blob_list(old(self).bytes(), old(self).position()) {
                Some((bs, j)) => r matches Some(v) && v.deep_view() == bs && final(self).position()
                    == j,
                None => r is None,
            },
    {
        let ghost s = old(self).bytes();
        let n = match self.get_varuint() {
            None => { return None },
            Some(v) => v,
        };
        let ghost j0 = self.position();
        let mut acc: Vec<Vec<u8>> = Vec::new();
        let mut t: u64 = 0;
        while t < n
            invariant
                self.wf(),
                self.bytes() == s,
                t <= n,
                spec_read_blobs_n(s, j0, n as nat) == append_parsed(
                    acc.deep_view(),
                    spec_read_blobs_n(s, self.position(), (n - t) as nat),
                ),
            decreases n - t,
        {
            let ghost acc0 = acc.deep_view();
            let x = match self.get_varuint_slice() {
                None => { return None },
                Some(v) => v,
            };
            proof {
                lemma_append_parsed_step(
                    acc0,
                    x@,
                    spec_read_blobs_n(s, self.position(), (n - t - 1) as nat),
                );
            }
            acc.push(x);
            proof {
                assert(acc.deep_view() =~~= acc0.push(x@));
            }
            t = t + 1;
        }
        proof {
            assert(acc.deep_view() + Seq::<Seq<u8>>::empty() =~= acc.deep_view());
        }
        Some(acc)
    }
}

} // verus!
