//! Numbers, texts and bytes on the wire.
//!
//! `postcard` writes and reads them. A number is written seven bits to a byte,
//! lowest first, every byte but the last with its top bit set; a text is its
//! length and its UTF-8. What is written is stated with what follows it, so that
//! reading gives back the value and what follows.
use vstd::prelude::*;
use vstd::slice::slice_subrange;
use vstd::string::*;
use vstd::utf8::*;

verus! {

/// Why a payload cannot be read.
#[derive(Debug, Clone, Copy, PartialEq, Eq, Structural)]
pub enum CodecError {
    /// The payload ends early.
    UnexpectedEnd,
    /// A number that does not end, or is too large.
    BadVarint,
    /// A flag that is neither 0 nor 1.
    BadBool,
    BadUtf8,
    /// The mark of an optional value is neither 0 nor 1.
    BadOption,
    /// A variant that does not exist.
    UnknownVariant,
    /// Anything else that `postcard` reports.
    Other,
}

impl CodecError {
    /// What is reported.
    pub open spec fn text(self) -> Seq<char> {
        match self {
            CodecError::UnexpectedEnd => "Hit the end of buffer, expected more data"@,
            CodecError::BadVarint =>
                "Found a varint that didn't terminate. Is the usize too big for this platform?"@,
            CodecError::BadBool => "Found a bool that wasn't 0 or 1"@,
            CodecError::BadUtf8 => "Tried to parse invalid utf-8"@,
            CodecError::BadOption => "Found an Option discriminant that wasn't 0 or 1"@,
            CodecError::UnknownVariant => "Serde Deserialization Error"@,
            CodecError::Other => "The original data was not well encoded"@,
        }
    }

    /// What is reported.
    pub fn message(&self) -> (r: &'static str)
        ensures
            r@ == self.text(),
    {
        match self {
            CodecError::UnexpectedEnd => "Hit the end of buffer, expected more data",
            CodecError::BadVarint =>
                "Found a varint that didn't terminate. Is the usize too big for this platform?",
            CodecError::BadBool => "Found a bool that wasn't 0 or 1",
            CodecError::BadUtf8 => "Tried to parse invalid utf-8",
            CodecError::BadOption => "Found an Option discriminant that wasn't 0 or 1",
            CodecError::UnknownVariant => "Serde Deserialization Error",
            CodecError::Other => "The original data was not well encoded",
        }
    }
}

/// A value that was read, and what follows it.
pub type Taken<T> = Result<(T, Seq<u8>), CodecError>;

/// A number on the wire.
pub open spec fn varint(n: nat) -> Seq<u8>
    decreases n,
{
    if n < 128 {
        seq![n as u8]
    } else {
        seq![(n % 128 + 128) as u8] + varint(n / 128)
    }
}

/// A number read, of which `i` bytes were read before: of at most `max` bytes,
/// the last of those at most `last`.
pub open spec fn take_varint(b: Seq<u8>, i: nat, max: nat, last: nat) -> Taken<nat>
    decreases b.len(),
{
    if i >= max {
        Err(CodecError::BadVarint)
    } else if b.len() == 0 {
        Err(CodecError::UnexpectedEnd)
    } else if b[0] < 128 {
        if i + 1 == max && b[0] > last {
            Err(CodecError::BadVarint)
        } else {
            Ok((b[0] as nat, b.skip(1)))
        }
    } else {
        match take_varint(b.skip(1), i + 1, max, last) {
            Ok((n, rest)) => Ok(((b[0] - 128) as nat + 128 * n, rest)),
            Err(e) => Err(e),
        }
    }
}

/// How many numbers `k` bytes can hold, the last at most `last`.
pub open spec fn limit(k: nat, last: nat) -> nat
    decreases k,
{
    if k == 0 {
        0
    } else if k == 1 {
        last + 1
    } else {
        128 * limit((k - 1) as nat, last)
    }
}

proof fn lemma_varint(n: nat, rest: Seq<u8>, i: nat, max: nat, last: nat)
    requires
        i < max,
        last < 128,
        n < limit((max - i) as nat, last),
    ensures
        take_varint(varint(n) + rest, i, max, last) == Ok::<(nat, Seq<u8>), CodecError>((n, rest)),
    decreases max - i,
{
    let b = varint(n) + rest;
    if n < 128 {
        assert(b.skip(1) =~= rest);
    } else {
        assert(max - i > 1);
        lemma_varint(n / 128, rest, i + 1, max, last);
        assert(b.skip(1) =~= varint(n / 128) + rest);
        assert(b[0] == n % 128 + 128);
    }
}

proof fn lemma_limits()
    ensures
        limit(3, 3) == 0x1_0000,
        limit(5, 15) == 0x1_0000_0000,
        limit(10, 1) == 0x1_0000_0000_0000_0000,
{
    reveal_with_fuel(limit, 11);
}

/// A 16-bit number, then `rest`.
pub open spec fn wire_small(v: u16, rest: Seq<u8>) -> Seq<u8> {
    varint(v as nat) + rest
}

/// A 32-bit number, then `rest`.
pub open spec fn wire_word(v: u32, rest: Seq<u8>) -> Seq<u8> {
    varint(v as nat) + rest
}

/// A 64-bit number, then `rest`.
pub open spec fn wire_long(v: u64, rest: Seq<u8>) -> Seq<u8> {
    varint(v as nat) + rest
}

/// A byte, then `rest`.
pub open spec fn wire_byte(v: u8, rest: Seq<u8>) -> Seq<u8> {
    seq![v] + rest
}

/// A flag, then `rest`.
pub open spec fn wire_flag(v: bool, rest: Seq<u8>) -> Seq<u8> {
    seq![
        if v {
            1u8
        } else {
            0u8
        },
    ] + rest
}

/// Bytes, then `rest`.
pub open spec fn wire_blob(v: Seq<u8>, rest: Seq<u8>) -> Seq<u8> {
    varint(v.len()) + (v + rest)
}

/// A text, then `rest`.
pub open spec fn wire_text(v: Seq<char>, rest: Seq<u8>) -> Seq<u8> {
    wire_blob(encode_utf8(v), rest)
}

/// A 16-bit number read.
pub open spec fn take_small(b: Seq<u8>) -> Taken<u16> {
    match take_varint(b, 0, 3, 3) {
        Ok((n, rest)) => Ok((n as u16, rest)),
        Err(e) => Err(e),
    }
}

/// A 32-bit number read.
pub open spec fn take_word(b: Seq<u8>) -> Taken<u32> {
    match take_varint(b, 0, 5, 15) {
        Ok((n, rest)) => Ok((n as u32, rest)),
        Err(e) => Err(e),
    }
}

/// A 64-bit number read.
pub open spec fn take_long(b: Seq<u8>) -> Taken<u64> {
    match take_varint(b, 0, 10, 1) {
        Ok((n, rest)) => Ok((n as u64, rest)),
        Err(e) => Err(e),
    }
}

/// A byte read.
pub open spec fn take_byte(b: Seq<u8>) -> Taken<u8> {
    if b.len() == 0 {
        Err(CodecError::UnexpectedEnd)
    } else {
        Ok((b[0], b.skip(1)))
    }
}

/// A flag read.
pub open spec fn take_flag(b: Seq<u8>) -> Taken<bool> {
    match take_byte(b) {
        Ok((v, rest)) => if v == 0 {
            Ok((false, rest))
        } else if v == 1 {
            Ok((true, rest))
        } else {
            Err(CodecError::BadBool)
        },
        Err(e) => Err(e),
    }
}

/// The mark of an optional value read: whether there is one.
pub open spec fn take_mark(b: Seq<u8>) -> Taken<bool> {
    match take_byte(b) {
        Ok((v, rest)) => if v == 0 {
            Ok((false, rest))
        } else if v == 1 {
            Ok((true, rest))
        } else {
            Err(CodecError::BadOption)
        },
        Err(e) => Err(e),
    }
}

/// A length read: a number of as many bits as the machine's lengths have.
pub open spec fn take_size(b: Seq<u8>) -> Taken<u64> {
    if usize::MAX == u64::MAX {
        take_long(b)
    } else {
        match take_word(b) {
            Ok((n, rest)) => Ok((n as u64, rest)),
            Err(e) => Err(e),
        }
    }
}

/// Bytes read.
pub open spec fn take_blob(b: Seq<u8>) -> Taken<Seq<u8>> {
    match take_size(b) {
        Ok((n, rest)) => if n > rest.len() {
            Err(CodecError::UnexpectedEnd)
        } else {
            Ok((rest.take(n as int), rest.skip(n as int)))
        },
        Err(e) => Err(e),
    }
}

/// A text read.
pub open spec fn take_text(b: Seq<u8>) -> Taken<Seq<char>> {
    match take_blob(b) {
        Ok((v, rest)) => if valid_utf8(v) {
            Ok((decode_utf8(v), rest))
        } else {
            Err(CodecError::BadUtf8)
        },
        Err(e) => Err(e),
    }
}

/// Reading a 16-bit number gives back what was written.
pub broadcast proof fn lemma_small(v: u16, rest: Seq<u8>)
    ensures
        #[trigger] take_small(wire_small(v, rest)) == Ok::<(u16, Seq<u8>), CodecError>((v, rest)),
{
    lemma_limits();
    lemma_varint(v as nat, rest, 0, 3, 3);
}

/// Reading a 32-bit number gives back what was written.
pub broadcast proof fn lemma_word(v: u32, rest: Seq<u8>)
    ensures
        #[trigger] take_word(wire_word(v, rest)) == Ok::<(u32, Seq<u8>), CodecError>((v, rest)),
{
    lemma_limits();
    lemma_varint(v as nat, rest, 0, 5, 15);
}

/// Reading a 64-bit number gives back what was written.
pub broadcast proof fn lemma_long(v: u64, rest: Seq<u8>)
    ensures
        #[trigger] take_long(wire_long(v, rest)) == Ok::<(u64, Seq<u8>), CodecError>((v, rest)),
{
    lemma_limits();
    lemma_varint(v as nat, rest, 0, 10, 1);
}

/// Reading a length gives back what was written.
pub broadcast proof fn lemma_size(v: u64, rest: Seq<u8>)
    requires
        v <= usize::MAX,
    ensures
        #[trigger] take_size(wire_long(v, rest)) == Ok::<(u64, Seq<u8>), CodecError>((v, rest)),
{
    if usize::MAX == u64::MAX {
        lemma_long(v, rest);
    } else {
        lemma_word(v as u32, rest);
    }
}

/// Reading a byte gives back what was written.
pub broadcast proof fn lemma_byte(v: u8, rest: Seq<u8>)
    ensures
        #[trigger] take_byte(wire_byte(v, rest)) == Ok::<(u8, Seq<u8>), CodecError>((v, rest)),
{
    assert(wire_byte(v, rest).skip(1) =~= rest);
}

/// Reading a flag gives back what was written.
pub broadcast proof fn lemma_flag(v: bool, rest: Seq<u8>)
    ensures
        #[trigger] take_flag(wire_flag(v, rest)) == Ok::<(bool, Seq<u8>), CodecError>((v, rest)),
{
    assert(wire_flag(v, rest).skip(1) =~= rest);
}

/// Reading an optional value's mark gives back what was written.
pub broadcast proof fn lemma_mark(v: bool, rest: Seq<u8>)
    ensures
        #[trigger] take_mark(wire_flag(v, rest)) == Ok::<(bool, Seq<u8>), CodecError>((v, rest)),
{
    assert(wire_flag(v, rest).skip(1) =~= rest);
}

/// Reading bytes gives back what was written.
pub broadcast proof fn lemma_blob(v: Seq<u8>, rest: Seq<u8>)
    requires
        v.len() <= usize::MAX,
    ensures
        #[trigger] take_blob(wire_blob(v, rest)) == Ok::<(Seq<u8>, Seq<u8>), CodecError>(
            (v, rest),
        ),
{
    lemma_size(v.len() as u64, v + rest);
    assert((v + rest).take(v.len() as int) =~= v);
    assert((v + rest).skip(v.len() as int) =~= rest);
}

/// Reading a text gives back what was written.
pub broadcast proof fn lemma_text(v: Seq<char>, rest: Seq<u8>)
    requires
        encode_utf8(v).len() <= usize::MAX,
    ensures
        #[trigger] take_text(wire_text(v, rest)) == Ok::<(Seq<char>, Seq<u8>), CodecError>(
            (v, rest),
        ),
{
    lemma_blob(encode_utf8(v), rest);
    encode_utf8_valid_utf8(v);
    encode_utf8_decode_utf8(v);
}


/// `postcard::to_stdvec` of a 64-bit number: seven bits to a byte, lowest first.
/// A smaller number is written the same way.
#[verifier::external_body]
fn number_bytes(v: u64) -> (r: Vec<u8>)
    ensures
        r@ == varint(v as nat),
{
    postcard::to_stdvec(&v).unwrap()
}

/// `postcard::to_stdvec` of a text: its length in bytes, then its UTF-8.
#[verifier::external_body]
fn text_bytes(s: &str) -> (r: Vec<u8>)
    ensures
        r@ == varint(encode_utf8(s@).len()) + encode_utf8(s@),
{
    postcard::to_stdvec(s).unwrap()
}

/// `postcard::take_from_bytes` of a 16-bit number: the number and what is left
/// behind it.
#[verifier::external_body]
fn read_small(b: &[u8]) -> (r: Result<(u16, &[u8]), CodecError>)
    ensures
        match take_small(b@) {
            Ok((v, rest)) => r matches Ok((w, left)) && w == v && left@ == rest,
            Err(e) => r matches Err(f) && f == e,
        },
{
    match postcard::take_from_bytes::<u16>(b) {
        Ok((v, rest)) => Ok((v, rest)),
        Err(postcard::Error::DeserializeUnexpectedEnd) => Err(CodecError::UnexpectedEnd),
        Err(postcard::Error::DeserializeBadVarint) => Err(CodecError::BadVarint),
        Err(_) => Err(CodecError::Other),
    }
}

/// `postcard::take_from_bytes` of a 32-bit number: the number and what is left
/// behind it.
#[verifier::external_body]
fn read_word(b: &[u8]) -> (r: Result<(u32, &[u8]), CodecError>)
    ensures
        match take_word(b@) {
            Ok((v, rest)) => r matches Ok((w, left)) && w == v && left@ == rest,
            Err(e) => r matches Err(f) && f == e,
        },
{
    match postcard::take_from_bytes::<u32>(b) {
        Ok((v, rest)) => Ok((v, rest)),
        Err(postcard::Error::DeserializeUnexpectedEnd) => Err(CodecError::UnexpectedEnd),
        Err(postcard::Error::DeserializeBadVarint) => Err(CodecError::BadVarint),
        Err(_) => Err(CodecError::Other),
    }
}

/// `postcard::take_from_bytes` of a 64-bit number: the number and what is left
/// behind it.
#[verifier::external_body]
fn read_long(b: &[u8]) -> (r: Result<(u64, &[u8]), CodecError>)
    ensures
        match take_long(b@) {
            Ok((v, rest)) => r matches Ok((w, left)) && w == v && left@ == rest,
            Err(e) => r matches Err(f) && f == e,
        },
{
    match postcard::take_from_bytes::<u64>(b) {
        Ok((v, rest)) => Ok((v, rest)),
        Err(postcard::Error::DeserializeUnexpectedEnd) => Err(CodecError::UnexpectedEnd),
        Err(postcard::Error::DeserializeBadVarint) => Err(CodecError::BadVarint),
        Err(_) => Err(CodecError::Other),
    }
}

/// `postcard::take_from_bytes` of a text: the text and what is left behind it.
#[verifier::external_body]
fn read_text(b: &[u8]) -> (r: Result<(String, &[u8]), CodecError>)
    ensures
        match take_text(b@) {
            Ok((v, rest)) => r matches Ok((s, left)) && s@ == v && left@ == rest,
            Err(e) => r matches Err(f) && f == e,
        },
{
    match postcard::take_from_bytes::<String>(b) {
        Ok((v, rest)) => Ok((v, rest)),
        Err(postcard::Error::DeserializeUnexpectedEnd) => Err(CodecError::UnexpectedEnd),
        Err(postcard::Error::DeserializeBadVarint) => Err(CodecError::BadVarint),
        Err(postcard::Error::DeserializeBadUtf8) => Err(CodecError::BadUtf8),
        Err(_) => Err(CodecError::Other),
    }
}

/// Writes a 16-bit number.
pub fn put_small(out: &mut Vec<u8>, v: u16)
    ensures
        forall|rest: Seq<u8>|
            final(out)@ + rest == old(out)@ + #[trigger] wire_small(v, rest),
{
    let mut b = number_bytes(v as u64);
    out.append(&mut b);
    proof {
        lemma_appended(old(out)@, out@, varint(v as nat));
    }
}

/// Writes a 32-bit number.
pub fn put_word(out: &mut Vec<u8>, v: u32)
    ensures
        forall|rest: Seq<u8>| final(out)@ + rest == old(out)@ + #[trigger] wire_word(v, rest),
{
    let mut b = number_bytes(v as u64);
    out.append(&mut b);
    proof {
        lemma_appended(old(out)@, out@, varint(v as nat));
    }
}

/// Writes a 64-bit number.
pub fn put_long(out: &mut Vec<u8>, v: u64)
    ensures
        forall|rest: Seq<u8>| final(out)@ + rest == old(out)@ + #[trigger] wire_long(v, rest),
{
    let mut b = number_bytes(v);
    out.append(&mut b);
    proof {
        lemma_appended(old(out)@, out@, varint(v as nat));
    }
}

/// Writes a byte.
pub fn put_byte(out: &mut Vec<u8>, v: u8)
    ensures
        forall|rest: Seq<u8>| final(out)@ + rest == old(out)@ + #[trigger] wire_byte(v, rest),
{
    out.push(v);
    proof {
        assert(out@ =~= old(out)@ + seq![v]);
        lemma_appended(old(out)@, out@, seq![v]);
    }
}

/// Writes a flag.
pub fn put_flag(out: &mut Vec<u8>, v: bool)
    ensures
        forall|rest: Seq<u8>| final(out)@ + rest == old(out)@ + #[trigger] wire_flag(v, rest),
{
    let b: u8 = if v {
        1
    } else {
        0
    };
    out.push(b);
    proof {
        assert(out@ =~= old(out)@ + seq![b]);
        lemma_appended(old(out)@, out@, seq![b]);
    }
}

/// Writes bytes.
pub fn put_blob(out: &mut Vec<u8>, v: &Vec<u8>)
    ensures
        forall|rest: Seq<u8>| final(out)@ + rest == old(out)@ + #[trigger] wire_blob(v@, rest),
{
    let mut b = number_bytes(v.len() as u64);
    out.append(&mut b);
    out.extend_from_slice(v.as_slice());
    proof {
        let n = varint(v@.len());
        assert(out@ =~= old(out)@ + (n + v@));
        assert forall|rest: Seq<u8>| out@ + rest == old(out)@ + #[trigger] wire_blob(v@, rest) by {
            assert(out@ + rest =~= old(out)@ + wire_blob(v@, rest));
        }
    }
}

/// Writes a text.
pub fn put_text(out: &mut Vec<u8>, s: &str)
    ensures
        forall|rest: Seq<u8>| final(out)@ + rest == old(out)@ + #[trigger] wire_text(s@, rest),
{
    let mut b = text_bytes(s);
    out.append(&mut b);
    proof {
        let n = varint(encode_utf8(s@).len());
        assert forall|rest: Seq<u8>| out@ + rest == old(out)@ + #[trigger] wire_text(s@, rest) by {
            assert(out@ + rest =~= old(out)@ + wire_text(s@, rest));
        }
    }
}

proof fn lemma_appended(before: Seq<u8>, after: Seq<u8>, written: Seq<u8>)
    requires
        after == before + written,
    ensures
        forall|rest: Seq<u8>| after + rest == before + #[trigger] (written + rest),
{
    assert forall|rest: Seq<u8>| after + rest == before + #[trigger] (written + rest) by {
        assert(after + rest =~= before + (written + rest));
    }
}

/// A payload being read.
pub struct Cursor<'a> {
    left: &'a [u8],
}

impl<'a> Cursor<'a> {
    /// What is left to read.
    pub closed spec fn rest(&self) -> Seq<u8> {
        self.left@
    }

    /// A payload, nothing of it read.
    pub fn new(bytes: &'a [u8]) -> (r: Self)
        ensures
            r.rest() == bytes@,
    {
        Cursor { left: bytes }
    }

    fn skip(&mut self, n: usize)
        requires
            n <= old(self).rest().len(),
        ensures
            final(self).rest() == old(self).rest().skip(n as int),
    {
        let left = slice_subrange(self.left, n, self.left.len());
        assert(left@ =~= self.rest().skip(n as int));
        self.left = left;
    }

    /// Reads a 16-bit number.
    pub fn small(&mut self) -> (r: Result<u16, CodecError>)
        ensures
            match take_small(old(self).rest()) {
                Ok((v, rest)) => r == Ok::<u16, CodecError>(v) && final(self).rest() == rest,
                Err(e) => r == Err::<u16, CodecError>(e),
            },
    {
        match read_small(self.left) {
            Ok((v, left)) => {
                self.left = left;
                Ok(v)
            },
            Err(e) => Err(e),
        }
    }

    /// Reads a 32-bit number.
    pub fn word(&mut self) -> (r: Result<u32, CodecError>)
        ensures
            match take_word(old(self).rest()) {
                Ok((v, rest)) => r == Ok::<u32, CodecError>(v) && final(self).rest() == rest,
                Err(e) => r == Err::<u32, CodecError>(e),
            },
    {
        match read_word(self.left) {
            Ok((v, left)) => {
                self.left = left;
                Ok(v)
            },
            Err(e) => Err(e),
        }
    }

    /// Reads a 64-bit number.
    pub fn long(&mut self) -> (r: Result<u64, CodecError>)
        ensures
            match take_long(old(self).rest()) {
                Ok((v, rest)) => r == Ok::<u64, CodecError>(v) && final(self).rest() == rest,
                Err(e) => r == Err::<u64, CodecError>(e),
            },
    {
        match read_long(self.left) {
            Ok((v, left)) => {
                self.left = left;
                Ok(v)
            },
            Err(e) => Err(e),
        }
    }

    /// Reads a length.
    pub fn size(&mut self) -> (r: Result<u64, CodecError>)
        ensures
            match take_size(old(self).rest()) {
                Ok((v, rest)) => r == Ok::<u64, CodecError>(v) && final(self).rest() == rest,
                Err(e) => r == Err::<u64, CodecError>(e),
            },
    {
        if usize::MAX as u64 == u64::MAX {
            self.long()
        } else {
            match self.word() {
                Ok(n) => Ok(n as u64),
                Err(e) => Err(e),
            }
        }
    }

    /// Reads a byte.
    pub fn byte(&mut self) -> (r: Result<u8, CodecError>)
        ensures
            match take_byte(old(self).rest()) {
                Ok((v, rest)) => r == Ok::<u8, CodecError>(v) && final(self).rest() == rest,
                Err(e) => r == Err::<u8, CodecError>(e),
            },
    {
        if self.left.len() > 0 {
            let v: u8 = self.left[0];
            self.skip(1);
            Ok(v)
        } else {
            Err(CodecError::UnexpectedEnd)
        }
    }

    /// Reads a flag.
    pub fn flag(&mut self) -> (r: Result<bool, CodecError>)
        ensures
            match take_flag(old(self).rest()) {
                Ok((v, rest)) => r == Ok::<bool, CodecError>(v) && final(self).rest() == rest,
                Err(e) => r == Err::<bool, CodecError>(e),
            },
    {
        match self.byte() {
            Ok(v) => if v == 0 {
                Ok(false)
            } else if v == 1 {
                Ok(true)
            } else {
                Err(CodecError::BadBool)
            },
            Err(e) => Err(e),
        }
    }

    /// Reads the mark of an optional value.
    pub fn mark(&mut self) -> (r: Result<bool, CodecError>)
        ensures
            match take_mark(old(self).rest()) {
                Ok((v, rest)) => r == Ok::<bool, CodecError>(v) && final(self).rest() == rest,
                Err(e) => r == Err::<bool, CodecError>(e),
            },
    {
        match self.byte() {
            Ok(v) => if v == 0 {
                Ok(false)
            } else if v == 1 {
                Ok(true)
            } else {
                Err(CodecError::BadOption)
            },
            Err(e) => Err(e),
        }
    }

    /// Reads bytes.
    pub fn blob(&mut self) -> (r: Result<Vec<u8>, CodecError>)
        ensures
            match take_blob(old(self).rest()) {
                Ok((v, rest)) => r matches Ok(w) && w@ == v && final(self).rest() == rest,
                Err(e) => r == Err::<Vec<u8>, CodecError>(e),
            },
    {
        let n: u64 = match self.size() {
            Ok(n) => n,
            Err(e) => {
                return Err(e);
            },
        };
        let left = self.left;
        if n > left.len() as u64 {
            return Err(CodecError::UnexpectedEnd);
        }
        let mut out: Vec<u8> = Vec::new();
        out.extend_from_slice(slice_subrange(left, 0, n as usize));
        assert(out@ =~= left@.take(n as int));
        self.skip(n as usize);
        Ok(out)
    }

    /// Reads a text.
    pub fn text(&mut self) -> (r: Result<String, CodecError>)
        ensures
            match take_text(old(self).rest()) {
                Ok((v, rest)) => r matches Ok(s) && s@ == v && final(self).rest() == rest,
                Err(e) => r == Err::<String, CodecError>(e),
            },
    {
        match read_text(self.left) {
            Ok((s, left)) => {
                self.left = left;
                Ok(s)
            },
            Err(e) => Err(e),
        }
    }
}

} // verus!
