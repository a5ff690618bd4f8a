//! Binary primitives of the osu! file formats: little-endian integers, ULEB128
//! numbers and the length-prefixed strings used by `osu!.db` and `.osr` files.

use byteorder::ByteOrder;
use byteorder::LittleEndian;
use vstd::prelude::*;
use vstd::utf8::decode_utf8;
use vstd::utf8::encode_utf8;
use vstd::utf8::valid_utf8;

verus! {

/// Errors that can arise while reading binary osu! data.
#[derive(Debug, Clone, Copy, PartialEq, Eq, Structural)]
pub enum Error {
    /// The input ended before the value was complete.
    UnexpectedEof,
    /// The bytes of a string are not valid UTF-8.
    Utf8,
    /// A ULEB128 number did not end within ten bytes.
    UlebOverflow,
    /// The byte in front of a string is neither `0x00` nor `0x0b`.
    InvalidStringStatusChar(u8),
}

/// `128` raised to the power `k`.
pub open spec fn pow128(k: nat) -> nat
    decreases k,
{
    if k == 0 {
        1
    } else {
        128 * pow128((k - 1) as nat)
    }
}

/// The little-endian value of the `n` bytes of `s` starting at `p`.
pub open spec fn le_value(s: Seq<u8>, p: int, n: nat) -> nat
    decreases n,
{
    if n == 0 {
        0
    } else {
        s[p] as nat + 256 * le_value(s, p + 1, (n - 1) as nat)
    }
}

/// Reading a fixed-width little-endian integer of `n` bytes at `p`: the value
/// and the position after it, or `UnexpectedEof` when fewer than `n` bytes remain.
pub open spec fn spec_read_le(s: Seq<u8>, p: int, n: nat) -> Result<(nat, int), Error> {
    if 0 <= p && p + n <= s.len() {
        Ok((le_value(s, p, n), p + n))
    } else {
        Err(Error::UnexpectedEof)
    }
}

/// The two's-complement reading of a 32-bit pattern.
pub open spec fn as_i32(u: nat) -> int {
    if u < 0x8000_0000 {
        u as int
    } else {
        u - 0x1_0000_0000
    }
}

/// One step of the ULEB128 decoder: `i` is the index of the byte inside the
/// number, `acc` the value of the bytes before it.
pub open spec fn uleb_step(s: Seq<u8>, p: int, i: nat, acc: nat) -> Result<(nat, int), Error>
    decreases 9 - i,
{
    if p < 0 || p + i >= s.len() {
        Err(Error::UnexpectedEof)
    } else {
        let b = s[p + i];
        let acc2 = acc + (b % 128) as nat * pow128(i);
        if b < 128 {
            Ok((acc2, p + i + 1))
        } else if i >= 9 {
            Err(Error::UlebOverflow)
        } else {
            uleb_step(s, p, i + 1, acc2)
        }
    }
}

/// Decoding a ULEB128 number at `p`: each byte gives seven bits, lowest first,
/// and the number ends at the first byte below `0x80`. A tenth byte with the
/// high bit set is an overflow.
pub open spec fn spec_read_uleb128(s: Seq<u8>, p: int) -> Result<(nat, int), Error> {
    uleb_step(s, p, 0, 0)
}

/// The ULEB128 encoding of `n`: seven bits per byte, lowest first, the high
/// bit set on every byte but the last. Zero is the single byte `0x00`.
pub open spec fn spec_uleb128_bytes(n: nat) -> Seq<u8>
    decreases n,
{
    if n < 128 {
        seq![n as u8]
    } else {
        seq![((n % 128) + 128) as u8] + spec_uleb128_bytes(n / 128)
    }
}

/// The number of bytes a string takes on disk once `len` is known: the length
/// is truncated to the machine's `usize`, as a cast does.
pub open spec fn string_len_of(len: nat) -> int {
    (len as u128 as usize) as int
}

/// Decoding a string at `p`: a status byte `0x00` (no string) or `0x0b`,
/// then a ULEB128 length and that many UTF-8 bytes. A length of zero is the
/// empty string.
pub open spec fn spec_read_string(s: Seq<u8>, p: int) -> Result<(Seq<char>, int), Error> {
    if p < 0 || p >= s.len() {
        Err(Error::UnexpectedEof)
    } else if s[p] == 0 {
        Ok((Seq::empty(), p + 1))
    } else if s[p] == 0x0b {
        match spec_read_uleb128(s, p + 1) {
            Err(e) => Err(e),
            Ok((len, q)) => if len == 0 {
                Ok((Seq::empty(), q))
            } else {
                let n = string_len_of(len);
                if q + n > s.len() {
                    Err(Error::UnexpectedEof)
                } else if !valid_utf8(s.subrange(q, q + n)) {
                    Err(Error::Utf8)
                } else {
                    Ok((decode_utf8(s.subrange(q, q + n)), q + n))
                }
            },
        }
    } else {
        Err(Error::InvalidStringStatusChar(s[p]))
    }
}

/// The bytes the writer produces for a string: `0x00` for the empty string,
/// otherwise `0x0b`, the ULEB128 byte length and the UTF-8 bytes.
pub open spec fn spec_string_bytes(text: Seq<char>) -> Seq<u8> {
    if text.len() == 0 {
        seq![0u8]
    } else {
        seq![0x0bu8] + spec_uleb128_bytes(encode_utf8(text).len()) + encode_utf8(text)
    }
}

/// Reads two bytes as a little-endian `u16` (`byteorder::LittleEndian::read_u16`).
/// The contract states the little-endian value of the first two bytes.
#[verifier::external_body]
fn le_u16(buf: &[u8]) -> (r: u16)
    requires
        buf@.len() >= 2,
    ensures
        r as nat == le_value(buf@, 0, 2),
{
    LittleEndian::read_u16(buf)
}

/// Reads four bytes as a little-endian `u32` (`byteorder::LittleEndian::read_u32`).
/// The contract states the little-endian value of the first four bytes.
#[verifier::external_body]
fn le_u32(buf: &[u8]) -> (r: u32)
    requires
        buf@.len() >= 4,
    ensures
        r as nat == le_value(buf@, 0, 4),
{
    LittleEndian::read_u32(buf)
}

/// Reads eight bytes as a little-endian `u64` (`byteorder::LittleEndian::read_u64`).
/// The contract states the little-endian value of the first eight bytes.
#[verifier::external_body]
fn le_u64(buf: &[u8]) -> (r: u64)
    requires
        buf@.len() >= 8,
    ensures
        r as nat == le_value(buf@, 0, 8),
{
    LittleEndian::read_u64(buf)
}

/// Reads four bytes as a little-endian `i32` (`byteorder::LittleEndian::read_i32`,
/// the `u32` reading cast to `i32`). The contract states the two's-complement
/// value of the first four bytes.
#[verifier::external_body]
fn le_i32(buf: &[u8]) -> (r: i32)
    requires
        buf@.len() >= 4,
    ensures
        r as int == as_i32(le_value(buf@, 0, 4)),
{
    LittleEndian::read_i32(buf)
}

/// Decodes UTF-8 bytes into a string (`String::from_utf8`). The contract
/// states that it succeeds exactly on valid UTF-8 and gives its decoding.
#[verifier::external_body]
fn utf8_string(bytes: Vec<u8>) -> (r: Option<String>)
    ensures
        r is Some <==> valid_utf8(bytes@),
        r matches Some(text) ==> text@ == decode_utf8(bytes@),
{
    String::from_utf8(bytes).ok()
}

proof fn lemma_le_value_skip(s: Seq<u8>, p: int, n: nat)
    requires
        0 <= p,
        p + n <= s.len(),
    ensures
        le_value(s, p, n) == le_value(s.subrange(p, s.len() as int), 0, n),
    decreases n,
{
    if n > 0 {
        lemma_le_value_skip(s, p + 1, (n - 1) as nat);
        lemma_le_value_skip(s.subrange(p, s.len() as int), 1, (n - 1) as nat);
        assert(s.subrange(p, s.len() as int).subrange(1, s.len() - p) =~= s.subrange(
            p + 1,
            s.len() as int,
        ));
    }
}

/// A cursor over bytes held in memory, read front to back.
pub struct ByteReader<'a> {
    data: &'a [u8],
    pos: usize,
}

impl<'a> ByteReader<'a> {
    /// The bytes being read.
    pub closed spec fn bytes(&self) -> Seq<u8> {
        self.data@
    }

    /// The position of the next byte to read.
    pub closed spec fn position(&self) -> int {
        self.pos as int
    }

    /// The reader's invariant: the position lies within the bytes.
    pub closed spec fn wf(&self) -> bool {
        self.pos <= self.data@.len()
    }

    /// A reader at the start of `data`.
    pub fn new(data: &'a [u8]) -> (r: ByteReader<'a>)
        ensures
            r.wf(),
            r.bytes() == data@,
            r.position() == 0,
    {
        ByteReader { data, pos: 0 }
    }

    /// A reader at position `pos` of `data`.
    pub fn at(data: &'a [u8], pos: usize) -> (r: ByteReader<'a>)
        requires
            pos <= data@.len(),
        ensures
            r.wf(),
            r.bytes() == data@,
            r.position() == pos,
    {
        ByteReader { data, pos }
    }

    /// The position of the next byte to read.
    pub fn pos(&self) -> (p: usize)
        ensures
            p == self.position(),
    {
        self.pos
    }

    /// Moves the position forward by `n` bytes, or to the end when fewer remain.
    pub fn skip(&mut self, n: usize)
        requires
            old(self).wf(),
        ensures
            final(self).wf(),
            final(self).bytes() == old(self).bytes(),
            final(self).position() == if old(self).position() + n <= old(self).bytes().len() {
                old(self).position() + n
            } else {
                old(self).bytes().len() as int
            },
    {
        if n <= self.data.len() - self.pos {
            self.pos = self.pos + n;
        } else {
            self.pos = self.data.len();
        }
    }

    /// Reads one byte.
    pub fn read_u8(&mut self) -> (r: Result<u8, Error>)
        requires
            old(self).wf(),
        ensures
            final(self).wf(),
            final(self).bytes() == old(self).bytes(),
            match spec_read_le(old(self).bytes(), old(self).position(), 1) {
                Ok((v, q)) => r == Ok::<u8, Error>(v as u8) && final(self).position() == q,
                Err(e) => r == Err::<u8, Error>(e),
            },
    {
        if self.pos < self.data.len() {
            let b = self.data[self.pos];
            self.pos = self.pos + 1;
            proof {
                reveal_with_fuel(le_value, 2);
            }
            Ok(b)
        } else {
            Err(Error::UnexpectedEof)
        }
    }

    /// Reads a little-endian `u16`.
    pub fn read_u16_le(&mut self) -> (r: Result<u16, Error>)
        requires
            old(self).wf(),
        ensures
            final(self).wf(),
            final(self).bytes() == old(self).bytes(),
            match spec_read_le(old(self).bytes(), old(self).position(), 2) {
                Ok((v, q)) => r == Ok::<u16, Error>(v as u16) && final(self).position() == q,
                Err(e) => r == Err::<u16, Error>(e),
            },
    {
        if self.data.len() - self.pos >= 2 {
            let rest = vstd::slice::slice_subrange(self.data, self.pos, self.data.len());
            let v = le_u16(rest);
            proof {
                lemma_le_value_skip(self.data@, self.pos as int, 2);
            }
            self.pos = self.pos + 2;
            Ok(v)
        } else {
            Err(Error::UnexpectedEof)
        }
    }

    /// Reads a little-endian `u32`.
    pub fn read_u32_le(&mut self) -> (r: Result<u32, Error>)
        requires
            old(self).wf(),
        ensures
            final(self).wf(),
            final(self).bytes() == old(self).bytes(),
            match spec_read_le(old(self).bytes(), old(self).position(), 4) {
                Ok((v, q)) => r == Ok::<u32, Error>(v as u32) && final(self).position() == q,
                Err(e) => r == Err::<u32, Error>(e),
            },
    {
        if self.data.len() - self.pos >= 4 {
            let rest = vstd::slice::slice_subrange(self.data, self.pos, self.data.len());
            let v = le_u32(rest);
            proof {
                lemma_le_value_skip(self.data@, self.pos as int, 4);
            }
            self.pos = self.pos + 4;
            Ok(v)
        } else {
            Err(Error::UnexpectedEof)
        }
    }

    /// Reads a little-endian `u64`.
    pub fn read_u64_le(&mut self) -> (r: Result<u64, Error>)
        requires
            old(self).wf(),
        ensures
            final(self).wf(),
            final(self).bytes() == old(self).bytes(),
            match spec_read_le(old(self).bytes(), old(self).position(), 8) {
                Ok((v, q)) => r == Ok::<u64, Error>(v as u64) && final(self).position() == q,
                Err(e) => r == Err::<u64, Error>(e),
            },
    {
        if self.data.len() - self.pos >= 8 {
            let rest = vstd::slice::slice_subrange(self.data, self.pos, self.data.len());
            let v = le_u64(rest);
            proof {
                lemma_le_value_skip(self.data@, self.pos as int, 8);
            }
            self.pos = self.pos + 8;
            Ok(v)
        } else {
            Err(Error::UnexpectedEof)
        }
    }

    /// Reads a little-endian `i32`.
    pub fn read_i32_le(&mut self) -> (r: Result<i32, Error>)
        requires
            old(self).wf(),
        ensures
            final(self).wf(),
            final(self).bytes() == old(self).bytes(),
            match spec_read_le(old(self).bytes(), old(self).position(), 4) {
                Ok((v, q)) => r == Ok::<i32, Error>(as_i32(v) as i32) && final(self).position()
                    == q,
                Err(e) => r == Err::<i32, Error>(e),
            },
    {
        if self.data.len() - self.pos >= 4 {
            let rest = vstd::slice::slice_subrange(self.data, self.pos, self.data.len());
            let v = le_i32(rest);
            proof {
                lemma_le_value_skip(self.data@, self.pos as int, 4);
            }
            self.pos = self.pos + 4;
            Ok(v)
        } else {
            Err(Error::UnexpectedEof)
        }
    }
}


proof fn lemma_pow128_mono(a: nat, b: nat)
    requires
        a <= b,
    ensures
        pow128(a) <= pow128(b),
    decreases b,
{
    if a < b {
        lemma_pow128_mono(a, (b - 1) as nat);
    }
}

proof fn lemma_pow128_nine()
    ensures
        pow128(9) == 0x8000_0000_0000_0000,
{
    reveal_with_fuel(pow128, 10);
}

impl<'a> ByteReader<'a> {
    /// Reads a number in ULEB128 format.
    pub fn read_uleb128(&mut self) -> (r: Result<u128, Error>)
        requires
            old(self).wf(),
        ensures
            final(self).wf(),
            final(self).bytes() == old(self).bytes(),
            match spec_read_uleb128(old(self).bytes(), old(self).position()) {
                Ok((v, q)) => r == Ok::<u128, Error>(v as u128) && final(self).position() == q,
                Err(e) => r == Err::<u128, Error>(e),
            },
    {
        let ghost p0 = self.pos as int;
        let ghost s = self.data@;
        let mut total: u128 = 0;
        let mut mult: u128 = 1;
        let mut idx: usize = 0;
        proof {
            lemma_pow128_nine();
        }
        loop
            invariant
                self.wf(),
                self.data@ == s,
                s == old(self).bytes(),
                p0 == old(self).position(),
                idx <= 9,
                self.pos == p0 + idx,
                mult == pow128(idx as nat),
                total < pow128(idx as nat),
                pow128(9) == 0x8000_0000_0000_0000,
                spec_read_uleb128(s, p0) == uleb_step(s, p0, idx as nat, total as nat),
            decreases 9 - idx,
        {
            if self.pos >= self.data.len() {
                return Err(Error::UnexpectedEof);
            }
            let b = self.data[self.pos];
            self.pos = self.pos + 1;
            proof {
                lemma_pow128_mono(idx as nat, 9);
            }
            let digit = (b % 128) as u128;
            assert(digit * mult <= 127 * 0x8000_0000_0000_0000) by (nonlinear_arith)
                requires
                    digit <= 127,
                    mult <= 0x8000_0000_0000_0000,
            ;
            assert(total + digit * mult < 128 * mult) by (nonlinear_arith)
                requires
                    digit <= 127,
                    total < mult,
            ;
            total = total + digit * mult;
            if b < 128 {
                return Ok(total);
            }
            if idx >= 9 {
                return Err(Error::UlebOverflow);
            }
            idx = idx + 1;
            mult = mult * 128;
        }
    }

    /// Reads a string: a status byte (`0x00` for none, `0x0b` for present), a
    /// ULEB128 byte length and that many bytes of UTF-8.
    pub fn read_uleb128_string(&mut self) -> (r: Result<String, Error>)
        requires
            old(self).wf(),
        ensures
            final(self).wf(),
            final(self).bytes() == old(self).bytes(),
            match spec_read_string(old(self).bytes(), old(self).position()) {
                Ok((text, q)) => r matches Ok(out) && out@ == text && final(self).position() == q,
                Err(e) => r == Err::<String, Error>(e),
            },
    {
        let status = self.read_u8();
        proof {
            reveal_with_fuel(le_value, 2);
        }
        match status {
            Err(e) => Err(e),
            Ok(0u8) => Ok(String::new()),
            Ok(0x0bu8) => {
                let len = match self.read_uleb128() {
                    Ok(len) => len,
                    Err(e) => return Err(e),
                };
                if len == 0 {
                    return Ok(String::new());
                }
                let n = len as usize;
                if n > self.data.len() - self.pos {
                    return Err(Error::UnexpectedEof);
                }
                let start = self.pos;
                let piece = vstd::slice::slice_subrange(self.data, start, start + n);
                let buf = vstd::slice::slice_to_vec(piece);
                self.pos = start + n;
                match utf8_string(buf) {
                    Some(text) => Ok(text),
                    None => Err(Error::Utf8),
                }
            },
            Ok(v) => Err(Error::InvalidStringStatusChar(v)),
        }
    }
}


/// Writing the binary primitives of the osu! formats.
pub trait WriteBytesOsu {
    /// The bytes written so far.
    spec fn written(&self) -> Seq<u8>;

    /// Writes `n` in ULEB128 format: seven bits per byte, lowest first, the
    /// high bit set on every byte but the last. Zero is the single byte
    /// `0x00`.
    fn write_uleb128(&mut self, n: u128) -> (r: Result<(), Error>)
        ensures
            r is Ok,
            final(self).written() == old(self).written() + spec_uleb128_bytes(n as nat),
    ;

    /// Writes a string: `0x00` when it is empty, otherwise `0x0b`, its UTF-8
    /// byte length in ULEB128 format and its UTF-8 bytes.
    fn write_uleb128_string(&mut self, string: &str) -> (r: Result<(), Error>)
        ensures
            r is Ok,
            final(self).written() == old(self).written() + spec_string_bytes(string@),
    ;
}

impl WriteBytesOsu for Vec<u8> {
    open spec fn written(&self) -> Seq<u8> {
        self@
    }

    fn write_uleb128(&mut self, n: u128) -> (r: Result<(), Error>) {
        let ghost n0 = n as nat;
        let mut n = n;
        loop
            invariant_except_break
                old(self)@ + spec_uleb128_bytes(n0) == self@ + spec_uleb128_bytes(n as nat),
            ensures
                self@ == old(self)@ + spec_uleb128_bytes(n0),
            decreases n,
        {
            let ghost before = self@;
            let low = (n % 128) as u8;
            let rest = n / 128;
            if rest > 0 {
                self.push(low + 128);
                assert(spec_uleb128_bytes(n as nat) == seq![(low + 128) as u8]
                    + spec_uleb128_bytes(rest as nat));
                assert(before + spec_uleb128_bytes(n as nat) =~= self@ + spec_uleb128_bytes(
                    rest as nat,
                ));
                n = rest;
            } else {
                self.push(low);
                assert(spec_uleb128_bytes(n as nat) == seq![low]);
                assert(before + spec_uleb128_bytes(n as nat) =~= self@);
                break;
            }
        }
        Ok(())
    }

    fn write_uleb128_string(&mut self, string: &str) -> (r: Result<(), Error>) {
        if string.is_empty() {
            self.push(0u8);
            assert(self@ =~= old(self)@ + spec_string_bytes(string@));
            return Ok(());
        }
        self.push(0x0bu8);
        let bytes = string.as_bytes();
        let len = bytes.len();
        let _ = self.write_uleb128(len as u128);
        let ghost mid = self@;
        let mut i: usize = 0;
        while i < len
            invariant
                len == bytes@.len(),
                i <= len,
                self@ == mid + bytes@.subrange(0, i as int),
            decreases len - i,
        {
            self.push(bytes[i]);
            assert(bytes@.subrange(0, (i + 1) as int) =~= bytes@.subrange(0, i as int).push(
                bytes@[i as int],
            ));
            i = i + 1;
        }
        assert(bytes@.subrange(0, len as int) =~= bytes@);
        assert(self@ =~= old(self)@ + spec_string_bytes(string@));
        Ok(())
    }
}

proof fn lemma_pow128_pos(k: nat)
    ensures
        pow128(k) >= 1,
    decreases k,
{
    if k > 0 {
        lemma_pow128_pos((k - 1) as nat);
    }
}

proof fn lemma_uleb_decode_from(s: Seq<u8>, p: int, i: nat, acc: nat, m: nat)
    requires
        i <= 9,
        m < pow128((10 - i) as nat),
        0 <= p,
        p + i + spec_uleb128_bytes(m).len() <= s.len(),
        s.subrange(p + i, p + i + spec_uleb128_bytes(m).len()) == spec_uleb128_bytes(m),
    ensures
        uleb_step(s, p, i, acc) == Ok::<(nat, int), Error>(
            (acc + m * pow128(i), p + i + spec_uleb128_bytes(m).len()),
        ),
    decreases m,
{
    let enc = spec_uleb128_bytes(m);
    assert(s[p + i] == enc[0]);
    if m < 128 {
        assert(enc == seq![m as u8]);
        assert((m as u8) % 128 == m);
    } else {
        let rest = spec_uleb128_bytes(m / 128);
        assert(enc == seq![((m % 128) + 128) as u8] + rest);
        assert(s[p + i] >= 128);
        assert((s[p + i] % 128) as nat == m % 128);
        if i >= 9 {
            assert(pow128((10 - i) as nat) == 128) by {
                reveal_with_fuel(pow128, 2);
            }
            assert(false);
        }
        let k = (9 - i) as nat;
        assert(pow128((10 - i) as nat) == 128 * pow128(k));
        assert(m / 128 < pow128(k)) by (nonlinear_arith)
            requires
                m < 128 * pow128(k),
        ;
        assert(s.subrange(p + i + 1, p + i + 1 + rest.len()) =~= s.subrange(
            p + i,
            p + i + enc.len(),
        ).subrange(1, enc.len() as int));
        assert(enc.subrange(1, enc.len() as int) =~= rest);
        let acc2 = acc + (m % 128) * pow128(i);
        lemma_uleb_decode_from(s, p, i + 1, acc2, m / 128);
        assert(pow128(i + 1) == 128 * pow128(i));
        assert(acc2 + (m / 128) * pow128(i + 1) == acc + m * pow128(i)) by (nonlinear_arith)
            requires
                acc2 == acc + (m % 128) * pow128(i),
                pow128(i + 1) == 128 * pow128(i),
                m == 128 * (m / 128) + m % 128,
        ;
    }
}

/// A number written in ULEB128 format reads back as itself, whatever bytes
/// stand before and after it, for every `n` below 2^70 (larger numbers take
/// more than the ten bytes the reader accepts).
pub proof fn uleb128_roundtrip(n: nat, before: Seq<u8>, after: Seq<u8>)
    requires
        n < pow128(10),
    ensures
        spec_read_uleb128(before + spec_uleb128_bytes(n) + after, before.len() as int) == Ok::<
            (nat, int),
            Error,
        >((n, (before.len() + spec_uleb128_bytes(n).len()) as int)),
{
    let s = before + spec_uleb128_bytes(n) + after;
    let p = before.len() as int;
    assert(s.subrange(p, p + spec_uleb128_bytes(n).len()) =~= spec_uleb128_bytes(n));
    assert(pow128(0) == 1);
    lemma_uleb_decode_from(s, p, 0, 0, n);
    assert(0 + n * pow128(0) == n);
    assert(spec_read_uleb128(s, p) == uleb_step(s, p, 0, 0));
}

/// A string written with its status byte and length reads back as itself,
/// whatever bytes stand before and after it, for every string whose UTF-8
/// length is below 2^70 and fits in a `usize`.
pub proof fn string_roundtrip(text: Seq<char>, before: Seq<u8>, after: Seq<u8>)
    requires
        encode_utf8(text).len() < pow128(10),
        encode_utf8(text).len() <= usize::MAX,
    ensures
        spec_read_string(before + spec_string_bytes(text) + after, before.len() as int) == Ok::<
            (Seq<char>, int),
            Error,
        >((text, (before.len() + spec_string_bytes(text).len()) as int)),
{
    broadcast use vstd::utf8::encode_utf8_valid_utf8, vstd::utf8::encode_utf8_decode_utf8;

    let s = before + spec_string_bytes(text) + after;
    let p = before.len() as int;
    if text.len() == 0 {
        assert(s[p] == 0);
        assert(text =~= Seq::<char>::empty());
    } else {
        let bytes = encode_utf8(text);
        let n = bytes.len();
        assert(n > 0) by {
            vstd::utf8::encode_utf8_first_scalar(text);
        }
        let enc = spec_uleb128_bytes(n);
        assert(s[p] == 0x0b);
        assert(s =~= (before + seq![0x0bu8]) + enc + (bytes + after));
        uleb128_roundtrip(n, before + seq![0x0bu8], bytes + after);
        let q = p + 1 + enc.len();
        assert(string_len_of(n) == n);
        assert(s.subrange(q, q + n) =~= bytes);
        assert(spec_read_uleb128(s, p + 1) == Ok::<(nat, int), Error>((n, q)));
        assert(valid_utf8(bytes));
        assert(decode_utf8(bytes) == text);
        assert(spec_string_bytes(text).len() == 1 + enc.len() + n);
    }
}


/// `256` raised to the power `k`.
pub open spec fn pow256(k: nat) -> nat
    decreases k,
{
    if k == 0 {
        1
    } else {
        256 * pow256((k - 1) as nat)
    }
}

/// The `n` little-endian bytes of `v`, lowest first.
pub open spec fn le_bytes(v: nat, n: nat) -> Seq<u8>
    decreases n,
{
    if n == 0 {
        Seq::empty()
    } else {
        seq![(v % 256) as u8] + le_bytes(v / 256, (n - 1) as nat)
    }
}

proof fn lemma_le_value_of(s: Seq<u8>, p: int, v: nat, n: nat)
    requires
        0 <= p,
        p + n <= s.len(),
        s.subrange(p, p + n) == le_bytes(v, n),
        v < pow256(n),
    ensures
        le_value(s, p, n) == v,
    decreases n,
{
    if n > 0 {
        let rest = le_bytes(v / 256, (n - 1) as nat);
        lemma_le_bytes_len(v / 256, (n - 1) as nat);
        assert(le_bytes(v, n) == seq![(v % 256) as u8] + rest);
        assert(s[p] == (v % 256) as u8) by {
            assert(s.subrange(p, p + n)[0] == s[p]);
        }
        assert(s.subrange(p + 1, p + n) =~= rest) by {
            assert forall|i: int| 0 <= i < n - 1 implies s.subrange(p + 1, p + n)[i] == rest[i] by {
                assert(s.subrange(p, p + n)[i + 1] == s[p + 1 + i]);
                assert(le_bytes(v, n)[i + 1] == rest[i]);
            }
        }
        assert(v / 256 < pow256((n - 1) as nat)) by (nonlinear_arith)
            requires
                v < pow256(n),
                pow256(n) == 256 * pow256((n - 1) as nat),
        ;
        lemma_le_value_of(s, p + 1, v / 256, (n - 1) as nat);
    }
}

/// A number written as `n` little-endian bytes reads back as itself, whatever
/// bytes stand before and after it, for every number below `256^n`.
pub proof fn le_roundtrip(v: nat, n: nat, before: Seq<u8>, after: Seq<u8>)
    requires
        v < pow256(n),
    ensures
        spec_read_le(before + le_bytes(v, n) + after, before.len() as int, n) == Ok::<(nat, int), Error>(
            (v, (before.len() + n) as int),
        ),
{
    let s = before + le_bytes(v, n) + after;
    let p = before.len() as int;
    lemma_le_bytes_len(v, n);
    assert(s.subrange(p, p + n) =~= le_bytes(v, n));
    lemma_le_value_of(s, p, v, n);
}

pub proof fn lemma_le_bytes_len(v: nat, n: nat)
    ensures
        le_bytes(v, n).len() == n,
    decreases n,
{
    if n > 0 {
        lemma_le_bytes_len(v / 256, (n - 1) as nat);
    }
}

/// Whether a string is short enough to be written and read back.
pub open spec fn writable_string(text: Seq<char>) -> bool {
    encode_utf8(text).len() < pow128(10) && encode_utf8(text).len() <= usize::MAX
}

pub(crate) proof fn lemma_chunk(x: Seq<u8>, c: Seq<u8>, s: Seq<u8>)
    requires
        (x + c).len() <= s.len(),
        s.subrange(0, (x + c).len() as int) == x + c,
    ensures
        s.subrange(0, x.len() as int) == x,
        s.subrange(x.len() as int, (x.len() + c.len()) as int) == c,
{
    assert(s.subrange(0, x.len() as int) =~= x) by {
        assert forall|i: int| 0 <= i < x.len() implies s.subrange(0, x.len() as int)[i] == x[i] by {
            assert(s.subrange(0, (x + c).len() as int)[i] == (x + c)[i]);
        }
    }
    assert(s.subrange(x.len() as int, (x.len() + c.len()) as int) =~= c) by {
        assert forall|i: int| 0 <= i < c.len() implies s.subrange(x.len() as int, (x.len() + c.len()) as int)[i] == c[i] by {
            assert(s.subrange(0, (x + c).len() as int)[x.len() + i] == (x + c)[x.len() + i]);
            assert(s[x.len() + i] == (x + c)[x.len() + i]);
            assert((x + c)[x.len() + i] == c[i]);
        }
    }
}

pub(crate) proof fn lemma_le_at(s: Seq<u8>, p: int, v: nat, n: nat)
    requires
        0 <= p,
        p + le_bytes(v, n).len() <= s.len(),
        s.subrange(p, p + le_bytes(v, n).len()) == le_bytes(v, n),
        v < pow256(n),
    ensures
        le_bytes(v, n).len() == n,
        spec_read_le(s, p, n) == Ok::<(nat, int), Error>((v, p + n)),
{
    lemma_le_bytes_len(v, n);
    let before = s.subrange(0, p);
    let after = s.subrange(p + n, s.len() as int);
    assert(s =~= before + le_bytes(v, n) + after);
    le_roundtrip(v, n, before, after);
}

pub(crate) proof fn lemma_string_at(s: Seq<u8>, p: int, t: Seq<char>)
    requires
        0 <= p,
        p + spec_string_bytes(t).len() <= s.len(),
        s.subrange(p, p + spec_string_bytes(t).len()) == spec_string_bytes(t),
        writable_string(t),
    ensures
        spec_read_string(s, p) == Ok::<(Seq<char>, int), Error>((t, p + spec_string_bytes(t).len())),
{
    let before = s.subrange(0, p);
    let after = s.subrange(p + spec_string_bytes(t).len(), s.len() as int);
    assert(s =~= before + spec_string_bytes(t) + after);
    string_roundtrip(t, before, after);
}

/// The little-endian value of `n` bytes is below `256^n`.
pub proof fn lemma_le_value_bound(s: Seq<u8>, p: int, n: nat)
    ensures
        le_value(s, p, n) < pow256(n),
        n == 1 ==> le_value(s, p, n) < 0x100,
        n == 2 ==> le_value(s, p, n) < 0x1_0000,
        n == 4 ==> le_value(s, p, n) < 0x1_0000_0000,
        n == 8 ==> le_value(s, p, n) < 0x1_0000_0000_0000_0000,
    decreases n,
{
    if n > 0 {
        lemma_le_value_bound(s, p + 1, (n - 1) as nat);
    }
    reveal_with_fuel(pow256, 9);
}

} // verus!
