//! Frames on the wire: the length prefix, and the reading and writing ends.
use crate::proto::frames;
use crate::proto::frames::{put_frame, FrameView};
use crate::proto::roundtrip;
use crate::proto::wire::{CodecError, Cursor};
use crate::proto::{Frame, MAX_FRAME_LEN};
use crate::text;
use vstd::prelude::*;
use vstd::slice::slice_subrange;
use vstd::string::*;

verus! {

/// Why a transport failed.
#[derive(Debug)]
pub enum IoFailure {
    /// It ended in the middle of a frame.
    UnexpectedEof,
    Other(String),
}

/// Protocol-layer error.
#[derive(Debug)]
pub enum ProtoError {
    /// A frame longer than `MAX_FRAME_LEN`; the caller should disconnect.
    FrameTooLarge(usize),
    Codec(CodecError),
    Io(IoFailure),
}

impl ProtoError {
    /// What is reported.
    pub fn message(&self) -> (r: String)
        ensures
            match *self {
                ProtoError::FrameTooLarge(n) => r@ == "frame length "@ + text::decimal_text(
                    n as nat,
                ) + " exceeds 4194304 byte cap"@,
                ProtoError::Io(IoFailure::UnexpectedEof) => r@
                    == "io error: unexpected end of file"@,
                ProtoError::Io(IoFailure::Other(e)) => r@ == "io error: "@ + e@,
                ProtoError::Codec(e) => r@ == "postcard codec error: "@ + e.text(),
            },
    {
        match self {
            ProtoError::FrameTooLarge(n) => {
                let digits = text::decimal(*n as u64);
                text::join3("frame length ", digits.as_str(), " exceeds 4194304 byte cap")
            },
            ProtoError::Io(IoFailure::UnexpectedEof) => "io error: unexpected end of file".to_owned(),
            ProtoError::Io(IoFailure::Other(e)) => text::join2("io error: ", e.as_str()),
            ProtoError::Codec(e) => text::join2("postcard codec error: ", e.message()),
        }
    }
}

/// A 32-bit length in four bytes, lowest first.
pub open spec fn prefix(n: nat) -> Seq<u8> {
    seq![
        (n % 256) as u8,
        (n / 256 % 256) as u8,
        (n / 65536 % 256) as u8,
        (n / 16777216 % 256) as u8,
    ]
}

/// The length that four bytes hold, lowest first.
pub open spec fn length_of(b: Seq<u8>) -> nat {
    (b[0] + 256 * b[1] + 65536 * b[2] + 16777216 * b[3]) as nat
}

/// A frame's payload.
pub open spec fn payload_of(v: FrameView) -> Seq<u8> {
    frames::wire_frame(v, Seq::empty())
}

/// A frame on the wire.
pub open spec fn framed(v: FrameView) -> Seq<u8> {
    prefix(payload_of(v).len()) + payload_of(v)
}

proof fn lemma_prefix(n: nat)
    requires
        n <= u32::MAX,
    ensures
        prefix(n).len() == 4,
        length_of(prefix(n)) == n,
{
}

/// Encodes a frame as its length and its payload. A payload over
/// `MAX_FRAME_LEN` is refused.
pub fn encode_frame(frame: &Frame) -> (r: Result<Vec<u8>, ProtoError>)
    ensures
        ({
            let payload = payload_of(frames::frame_view(*frame));
            if payload.len() > MAX_FRAME_LEN {
                r matches Err(ProtoError::FrameTooLarge(n)) && n == payload.len()
            } else {
                r matches Ok(buf) && buf@ == framed(frames::frame_view(*frame))
            }
        }),
{
    let mut payload: Vec<u8> = Vec::new();
    put_frame(&mut payload, frame);
    proof {
        let e = Seq::<u8>::empty();
        let w = frames::wire_frame(frames::frame_view(*frame), e);
        assert(payload@ + e == Seq::<u8>::empty() + w);
        assert(payload@ + e =~= payload@);
        assert(Seq::<u8>::empty() + w =~= w);
    }
    let n: usize = payload.len();
    if n > MAX_FRAME_LEN {
        return Err(ProtoError::FrameTooLarge(n));
    }
    let mut buf: Vec<u8> = Vec::new();
    buf.push((n % 256) as u8);
    buf.push((n / 256 % 256) as u8);
    buf.push((n / 65536 % 256) as u8);
    buf.push((n / 16777216 % 256) as u8);
    assert(buf@ =~= prefix(n as nat));
    buf.append(&mut payload);
    Ok(buf)
}

/// Whether decoding a payload gave what it holds.
pub open spec fn decoded(payload: Seq<u8>, r: Result<Frame, ProtoError>) -> bool {
    if payload.len() > MAX_FRAME_LEN {
        r matches Err(ProtoError::FrameTooLarge(n)) && n == payload.len()
    } else {
        match frames::take_frame(payload) {
            Ok((v, _)) => r matches Ok(f) && frames::frame_view(f) == v,
            Err(e) => r matches Err(ProtoError::Codec(c)) && c == e,
        }
    }
}

/// Decodes a frame from a complete payload, without the length.
pub fn decode_frame(payload: &[u8]) -> (r: Result<Frame, ProtoError>)
    ensures
        decoded(payload@, r),
{
    if payload.len() > MAX_FRAME_LEN {
        return Err(ProtoError::FrameTooLarge(payload.len()));
    }
    let mut cursor = Cursor::new(payload);
    match cursor.frame() {
        Ok(f) => Ok(f),
        Err(e) => Err(ProtoError::Codec(e)),
    }
}

/// Law: decoding the payload of a frame that could be encoded gives that frame
/// back.
pub proof fn law_decode_undoes_encode(frame: Frame, r: Result<Frame, ProtoError>)
    requires
        payload_of(frames::frame_view(frame)).len() <= MAX_FRAME_LEN,
        decoded(payload_of(frames::frame_view(frame)), r),
    ensures
        r matches Ok(f) && frames::frame_view(f) == frames::frame_view(frame),
{
    roundtrip::law_frame_roundtrip(frames::frame_view(frame), Seq::empty());
}

/// Law: two frames with the same payload are the same frame.
pub proof fn law_payloads_tell_frames_apart(a: FrameView, b: FrameView)
    requires
        payload_of(a).len() <= MAX_FRAME_LEN,
        payload_of(a) == payload_of(b),
    ensures
        a == b,
{
    roundtrip::law_frame_roundtrip(a, Seq::empty());
    roundtrip::law_frame_roundtrip(b, Seq::empty());
}

/// What a reader does next.
#[derive(Debug)]
pub enum Next {
    /// It needs up to this many bytes.
    Read(usize),
    /// A whole frame arrived.
    Done(Frame),
}

/// What a reader that has `seen` these bytes of a frame does next.
pub enum Turn {
    Read(nat),
    Done(FrameView),
    TooLarge(nat),
    Garbled(CodecError),
}

/// What a reader that has seen these bytes of a frame does next.
pub open spec fn turn(seen: Seq<u8>) -> Turn {
    if seen.len() < 4 {
        Turn::Read((4 - seen.len()) as nat)
    } else {
        let n = length_of(seen);
        if n > MAX_FRAME_LEN {
            Turn::TooLarge(n)
        } else if seen.len() < 4 + n {
            Turn::Read((4 + n - seen.len()) as nat)
        } else {
            match frames::take_frame(seen.skip(4)) {
                Ok((v, _)) => Turn::Done(v),
                Err(e) => Turn::Garbled(e),
            }
        }
    }
}

/// Whether bytes are a length, or part of one, and no more of a payload than
/// that length says.
pub open spec fn part_of_a_frame(seen: Seq<u8>) -> bool {
    seen.len() <= 4 || (length_of(seen) <= MAX_FRAME_LEN && seen.len() <= 4 + length_of(seen))
}

/// Law: a frame comes out of its own bytes and of no fewer. A reader that has
/// seen part of them asks for no more than what is left of them, however they
/// were cut up on the way.
pub proof fn law_frame_comes_through(v: FrameView, seen: Seq<u8>)
    requires
        payload_of(v).len() <= MAX_FRAME_LEN,
        seen.is_prefix_of(framed(v)),
    ensures
        seen.len() == framed(v).len() ==> turn(seen) == Turn::Done(v),
        seen.len() < framed(v).len() ==> (turn(seen) matches Turn::Read(n) && 0 < n
            <= framed(v).len() - seen.len()),
{
    let payload = payload_of(v);
    let n = payload.len();
    lemma_prefix(n);
    let whole = framed(v);
    assert(seen =~= whole.take(seen.len() as int));
    if seen.len() >= 4 {
        assert(seen[0] == prefix(n)[0] && seen[1] == prefix(n)[1] && seen[2] == prefix(n)[2]
            && seen[3] == prefix(n)[3]);
        assert(length_of(seen) == n);
        if seen.len() == whole.len() {
            assert(seen.skip(4) =~= payload);
            roundtrip::law_frame_roundtrip(v, Seq::empty());
        }
    }
}

/// Frames one after the other on the wire.
pub open spec fn stream(frames: Seq<FrameView>) -> Seq<u8>
    decreases frames.len(),
{
    if frames.len() == 0 {
        Seq::empty()
    } else {
        framed(frames[0]) + stream(frames.drop_first())
    }
}

/// A reader at work: what it has seen of a frame, what is still on the wire, and
/// the frames it has given out.
pub struct Intake {
    pub seen: Seq<u8>,
    pub wire: Seq<u8>,
    pub given: Seq<FrameView>,
}

impl Intake {
    /// One turn: the frame that is complete given out, or bytes taken off the wire.
    /// The transport has `size` of them at hand: it may hand over fewer than were
    /// asked for, but at least one where there are any.
    pub open spec fn turned(self, size: nat) -> Intake {
        self.done(turn(self.seen), size)
    }

    /// What the reader does next, done.
    pub open spec fn done(self, next: Turn, size: nat) -> Intake {
        match next {
            Turn::Read(n) => {
                let most = if n <= self.wire.len() {
                    n as int
                } else {
                    self.wire.len() as int
                };
                let taken = if size < 1 && most > 0 {
                    1
                } else if size <= most {
                    size as int
                } else {
                    most
                };
                Intake {
                    seen: self.seen + self.wire.take(taken),
                    wire: self.wire.skip(taken),
                    ..self
                }
            },
            Turn::Done(v) => Intake { seen: Seq::empty(), given: self.given.push(v), ..self },
            _ => self,
        }
    }

    /// As many turns as there are sizes.
    pub open spec fn run(self, sizes: Seq<nat>) -> Intake
        decreases sizes.len(),
    {
        if sizes.len() == 0 {
            self
        } else {
            self.run(sizes.drop_last()).turned(sizes.last())
        }
    }

    /// Whether the reader is in the middle of these frames: it has given out the
    /// first of them, and what it has seen and what is on the wire are the rest.
    spec fn amid(self, frames: Seq<FrameView>) -> bool {
        let k = self.given.len() as int;
        &&& k <= frames.len()
        &&& self.given == frames.take(k)
        &&& self.seen + self.wire == stream(frames.skip(k))
        &&& k < frames.len() ==> self.seen.is_prefix_of(framed(frames[k]))
        &&& k == frames.len() ==> self.seen.len() == 0
    }

    /// How many turns are left at most.
    spec fn left(self, frames: Seq<FrameView>) -> int {
        self.wire.len() + (frames.len() - self.given.len())
    }
}

/// Bytes taken off the wire, no more than are left of the frame.
proof fn lemma_taken(s: Intake, whole: Seq<u8>, behind: Seq<u8>, n: nat, size: nat)
    requires
        s.seen.is_prefix_of(whole),
        s.seen + s.wire == whole + behind,
        0 < n <= whole.len() - s.seen.len(),
    ensures
        ({
            let t = s.done(Turn::Read(n), size);
            &&& t.seen.is_prefix_of(whole)
            &&& t.seen + t.wire == whole + behind
            &&& t.wire.len() < s.wire.len()
            &&& t.given == s.given
        }),
{
    let t = s.done(Turn::Read(n), size);
    assert((s.seen + s.wire).len() == (whole + behind).len());
    assert(t.seen + t.wire =~= s.seen + s.wire);
    assert(t.seen =~= whole.take(t.seen.len() as int)) by {
        assert forall|i: int| 0 <= i < t.seen.len() implies t.seen[i] == whole[i] by {
            assert(t.seen[i] == (t.seen + t.wire)[i]);
            assert((whole + behind)[i] == whole[i]);
        }
    }
}

/// A frame that is complete, and what is behind it.
proof fn lemma_whole(s: Intake, whole: Seq<u8>, behind: Seq<u8>)
    requires
        s.seen.is_prefix_of(whole),
        s.seen.len() == whole.len(),
        s.seen + s.wire == whole + behind,
    ensures
        s.wire == behind,
{
    assert(s.wire =~= (s.seen + s.wire).skip(whole.len() as int));
    assert(behind =~= (whole + behind).skip(whole.len() as int));
}

proof fn lemma_turned(s: Intake, frames: Seq<FrameView>, size: nat)
    requires
        s.amid(frames),
        forall|i: int|
            0 <= i < frames.len() ==> payload_of(#[trigger] frames[i]).len() <= MAX_FRAME_LEN,
    ensures
        s.turned(size).amid(frames),
        s.left(frames) > 0 ==> s.turned(size).left(frames) < s.left(frames),
        s.left(frames) == 0 ==> s.turned(size) == s,
{
    let k = s.given.len() as int;
    let rest = frames.skip(k);
    let t = s.turned(size);
    if k < frames.len() {
        let v = frames[k];
        let whole = framed(v);
        let behind = stream(frames.skip(k + 1));
        assert(rest[0] == v);
        assert(rest.drop_first() =~= frames.skip(k + 1));
        law_frame_comes_through(v, s.seen);
        if s.seen.len() < whole.len() {
            lemma_taken(s, whole, behind, turn(s.seen)->Read_0, size);
        } else {
            lemma_whole(s, whole, behind);
            assert(t.given =~= frames.take(k + 1));
            assert(t.seen + t.wire =~= behind);
            if k + 1 < frames.len() {
                assert(t.seen =~= framed(frames[k + 1]).take(0));
            }
        }
    } else {
        assert(rest =~= Seq::<FrameView>::empty());
        assert((s.seen + s.wire).len() == 0);
        assert(t.seen =~= s.seen);
        assert(t.wire =~= s.wire);
    }
}

proof fn lemma_run(s: Intake, frames: Seq<FrameView>, sizes: Seq<nat>)
    requires
        s.amid(frames),
        forall|i: int|
            0 <= i < frames.len() ==> payload_of(#[trigger] frames[i]).len() <= MAX_FRAME_LEN,
    ensures
        s.run(sizes).amid(frames),
        0 <= s.run(sizes).left(frames),
        s.run(sizes).left(frames) == 0 || s.run(sizes).left(frames) + sizes.len() <= s.left(frames),
    decreases sizes.len(),
{
    if sizes.len() > 0 {
        lemma_run(s, frames, sizes.drop_last());
        lemma_turned(s.run(sizes.drop_last()), frames, sizes.last());
    }
}

/// Law: frames written one after the other come through in order, however their
/// bytes are cut up on the way. At every moment the reader has given out the first
/// of them, and once it has had a turn for each byte and each frame it has given
/// out all.
pub proof fn law_frames_come_through(frames: Seq<FrameView>, sizes: Seq<nat>)
    requires
        forall|i: int|
            0 <= i < frames.len() ==> payload_of(#[trigger] frames[i]).len() <= MAX_FRAME_LEN,
    ensures
        ({
            let start = Intake { seen: Seq::empty(), wire: stream(frames), given: Seq::empty() };
            let end = start.run(sizes);
            &&& end.given.is_prefix_of(frames)
            &&& sizes.len() >= stream(frames).len() + frames.len() ==> end.given == frames
                && end.seen.len() == 0 && end.wire.len() == 0
        }),
{
    let start = Intake { seen: Seq::empty(), wire: stream(frames), given: Seq::empty() };
    assert(frames.skip(0) =~= frames);
    assert(start.given =~= frames.take(0));
    assert(start.seen + start.wire =~= start.wire);
    if frames.len() > 0 {
        assert(start.seen =~= framed(frames[0]).take(0));
    }
    lemma_run(start, frames, sizes);
    let end = start.run(sizes);
    if end.left(frames) == 0 {
        assert(frames.take(frames.len() as int) =~= frames);
    }
}

/// Frame reading end over any transport.
///
/// The bytes of a half-read frame live here, so a read that is given up in the
/// middle loses nothing and the next one goes on with the same frame.
#[derive(Debug)]
pub struct FrameReader<R> {
    inner: R,
    seen: Vec<u8>,
}

impl<R> FrameReader<R> {
    /// The transport.
    pub closed spec fn transport(&self) -> R {
        self.inner
    }

    /// The bytes of the frame being read.
    pub closed spec fn seen(&self) -> Seq<u8> {
        self.seen@
    }

    pub fn new(inner: R) -> (r: Self)
        ensures
            r.wf(),
            r.transport() == inner,
            r.seen() == Seq::<u8>::empty(),
    {
        FrameReader { inner, seen: Vec::new() }
    }

    /// Takes the transport back. A partially read frame is discarded.
    pub fn into_inner(self) -> (r: R)
        ensures
            r == self.transport(),
    {
        self.inner
    }

    /// The transport, to read from.
    pub fn inner_mut(&mut self) -> (r: &mut R)
        ensures
            *r == old(self).transport(),
            final(self).transport() == *final(r),
            final(self).seen() == old(self).seen(),
            old(self).wf() ==> final(self).wf(),
    {
        &mut self.inner
    }

    /// The bytes seen are part of one frame.
    pub open spec fn wf(&self) -> bool {
        part_of_a_frame(self.seen())
    }

    /// What to do next: how many bytes to read, or the frame that is complete.
    /// A complete frame is forgotten, whether it could be decoded or not; one
    /// that is too long stays, and the connection with it is of no more use.
    pub fn advance(&mut self) -> (r: Result<Next, ProtoError>)
        requires
            old(self).wf(),
        ensures
            final(self).wf(),
            final(self).transport() == old(self).transport(),
            match turn(old(self).seen()) {
                Turn::Read(n) => (r matches Ok(Next::Read(m)) && m == n) && final(self).seen()
                    == old(self).seen(),
                Turn::TooLarge(n) => (r matches Err(ProtoError::FrameTooLarge(m)) && m == n)
                    && final(self).seen() == old(self).seen(),
                Turn::Done(v) => (r matches Ok(Next::Done(f)) && frames::frame_view(f) == v)
                    && final(self).seen().len() == 0,
                Turn::Garbled(e) => (r matches Err(ProtoError::Codec(c)) && c == e)
                    && final(self).seen().len() == 0,
            },
    {
        let have: usize = self.seen.len();
        if have < 4 {
            return Ok(Next::Read(4 - have));
        }
        let n: usize = self.seen[0] as usize + 256 * self.seen[1] as usize + 65536
            * self.seen[2] as usize + 16777216 * self.seen[3] as usize;
        if n > MAX_FRAME_LEN {
            return Err(ProtoError::FrameTooLarge(n));
        }
        if have < 4 + n {
            return Ok(Next::Read(4 + n - have));
        }
        let mut bytes: Vec<u8> = Vec::new();
        std::mem::swap(&mut bytes, &mut self.seen);
        let payload = slice_subrange(bytes.as_slice(), 4, bytes.len());
        proof {
            assert(payload@ =~= old(self).seen().skip(4));
        }
        match decode_frame(payload) {
            Ok(f) => Ok(Next::Done(f)),
            Err(e) => Err(e),
        }
    }

    /// Records bytes that came from the transport: no more than were asked for.
    pub fn filled(&mut self, chunk: &[u8])
        requires
            old(self).wf(),
            turn(old(self).seen()) matches Turn::Read(n) && chunk@.len() <= n,
        ensures
            final(self).wf(),
            final(self).transport() == old(self).transport(),
            final(self).seen() == old(self).seen() + chunk@,
    {
        self.seen.extend_from_slice(chunk);
    }

    /// The transport ended: cleanly between frames, an error inside one.
    pub fn closed(&self) -> (r: Result<(), ProtoError>)
        ensures
            if self.seen().len() == 0 {
                r is Ok
            } else {
                r matches Err(ProtoError::Io(IoFailure::UnexpectedEof))
            },
    {
        if self.seen.len() == 0 {
            Ok(())
        } else {
            Err(ProtoError::Io(IoFailure::UnexpectedEof))
        }
    }
}

/// Frame writing end over any transport.
#[derive(Debug)]
pub struct FrameWriter<W> {
    inner: W,
}

impl<W> FrameWriter<W> {
    /// The transport.
    pub closed spec fn transport(&self) -> W {
        self.inner
    }

    pub fn new(inner: W) -> (r: Self)
        ensures
            r.transport() == inner,
    {
        FrameWriter { inner }
    }

    pub fn into_inner(self) -> (r: W)
        ensures
            r == self.transport(),
    {
        self.inner
    }

    /// The transport, to write a frame's bytes to.
    pub fn inner_mut(&mut self) -> (r: &mut W)
        ensures
            *r == old(self).transport(),
            final(self).transport() == *final(r),
    {
        &mut self.inner
    }
}

} // verus!
