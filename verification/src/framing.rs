//! Byte-level framing: each encoded command travels as one
//! newline-terminated frame, and a per-connection accumulating buffer turns
//! an arbitrary sequence of read chunks back into whole frames.
//!
//! This fixes the fixed-size single-read defect: a read may deliver part of
//! a frame or several frames at once, and [`FrameBuffer`] still hands out
//! exactly the frames that were sent.

use vstd::prelude::*;

use crate::codec::Command;
use crate::codec::CommandModel;
use crate::codec::CommandParseError;
use crate::codec::decode;
use crate::codec::encode;
use crate::codec::lemma_decode_encode;
use crate::codec::routable;
use crate::codec::spec_decode;
use crate::codec::spec_encode;
use vstd::string::StringSliceAdditionalSpecFns;
use vstd::utf8::char_is_scalar;
use vstd::utf8::char_u32_cast;
use vstd::utf8::decode_utf8;
use vstd::utf8::encode_scalar;
use vstd::utf8::encode_utf8;
use vstd::utf8::encode_utf8_decode_utf8;
use vstd::utf8::encode_utf8_valid_utf8;
use vstd::utf8::valid_utf8;

verus! {

/// The byte that terminates every frame on the wire (`'\n'`).
pub const FRAME_END: u8 = 10;

/// Why a received frame could not be decoded into a command.
#[derive(Debug)]
pub enum DecodeError {
    /// The frame's bytes are not valid text.
    Encoding,
    /// The frame's text does not match the command grammar.
    Parse,
}

/// The position of the first frame terminator in `s` at or after `from`,
/// or `s.len()` when no terminator follows.
pub open spec fn find_frame_end(s: Seq<u8>, from: int) -> int
    recommends
        0 <= from <= s.len(),
    decreases s.len() - from,
{
    if from < 0 || from >= s.len() {
        s.len() as int
    } else if s[from] == FRAME_END {
        from
    } else {
        find_frame_end(s, from + 1)
    }
}

/// A position with no terminator before it (from `from` on) that sits on a
/// terminator, or at the end, is exactly what `find_frame_end` returns.
proof fn lemma_find_frame_end_at(s: Seq<u8>, from: int, k: int)
    requires
        0 <= from <= k <= s.len(),
        forall|j: int| from <= j < k ==> s[j] != FRAME_END,
        k < s.len() ==> s[k] == FRAME_END,
    ensures
        find_frame_end(s, from) == k,
    decreases k - from,
{
    if from < k {
        lemma_find_frame_end_at(s, from + 1, k);
    }
}

/// An accumulating receive buffer for one connection. Chunks read from the
/// transport go in; whole newline-terminated frames come out.
pub struct FrameBuffer {
    buf: Vec<u8>,
}

impl View for FrameBuffer {
    type V = Seq<u8>;

    closed spec fn view(&self) -> Seq<u8> {
        self.buf@
    }
}

impl FrameBuffer {
    /// An empty buffer.
    pub fn new() -> (r: Self)
        ensures
            r@ == Seq::<u8>::empty(),
    {
        FrameBuffer { buf: Vec::new() }
    }

    /// Appends one chunk as read from the transport.
    pub fn push_chunk(&mut self, chunk: &[u8])
        ensures
            final(self)@ == old(self)@ + chunk@,
    {
        let n = chunk.len();
        let mut i: usize = 0;
        while i < n
            invariant
                0 <= i <= n,
                n == chunk@.len(),
                self.buf@ == old(self).buf@ + chunk@.subrange(0, i as int),
            decreases n - i,
        {
            self.buf.push(chunk[i]);
            proof {
                assert(old(self).buf@ + chunk@.subrange(0, i as int) + seq![chunk@[i as int]]
                    =~= old(self).buf@ + chunk@.subrange(0, i + 1));
            }
            i = i + 1;
        }
        proof {
            assert(chunk@.subrange(0, n as int) =~= chunk@);
        }
    }

    /// Takes the first complete frame out of the buffer: the bytes before
    /// the first terminator, which leave the buffer along with the
    /// terminator itself. Returns `None`, leaving the buffer unchanged,
    /// while no complete frame has arrived.
    pub fn next_frame(&mut self) -> (r: Option<Vec<u8>>)
        ensures
            ({
                let d = find_frame_end(old(self)@, 0);
                if d == old(self)@.len() {
                    r is None && final(self)@ == old(self)@
                } else {
                    &&& r matches Some(f) && f@ == old(self)@.subrange(0, d)
                    &&& final(self)@ == old(self)@.subrange(d + 1, old(self)@.len() as int)
                }
            }),
    {
        let n = self.buf.len();
        let mut i: usize = 0;
        while i < n
            invariant
                0 <= i <= n,
                n == self.buf@.len(),
                self == old(self),
                forall|j: int| 0 <= j < i ==> self.buf@[j] != FRAME_END,
            decreases n - i,
        {
            if self.buf[i] == FRAME_END {
                proof {
                    lemma_find_frame_end_at(self.buf@, 0, i as int);
                }
                let mut frame: Vec<u8> = Vec::new();
                let mut j: usize = 0;
                while j < i
                    invariant
                        0 <= j <= i < n,
                        n == self.buf@.len(),
                        self == old(self),
                        frame@ == self.buf@.subrange(0, j as int),
                    decreases i - j,
                {
                    frame.push(self.buf[j]);
                    proof {
                        assert(self.buf@.subrange(0, j as int) + seq![self.buf@[j as int]]
                            =~= self.buf@.subrange(0, j + 1));
                    }
                    j = j + 1;
                }
                let mut rest: Vec<u8> = Vec::new();
                let mut k: usize = i + 1;
                while k < n
                    invariant
                        i + 1 <= k <= n,
                        n == self.buf@.len(),
                        self == old(self),
                        rest@ == self.buf@.subrange(i + 1, k as int),
                    decreases n - k,
                {
                    rest.push(self.buf[k]);
                    proof {
                        assert(self.buf@.subrange(i + 1, k as int) + seq![self.buf@[k as int]]
                            =~= self.buf@.subrange(i + 1, k + 1));
                    }
                    k = k + 1;
                }
                proof {
                    assert(rest@ =~= self.buf@.subrange(i + 1, n as int));
                }
                self.buf = rest;
                return Some(frame);
            }
            i = i + 1;
        }
        proof {
            lemma_find_frame_end_at(self.buf@, 0, n as int);
        }
        None
    }
}

/// Relies on `str::from_utf8`: it returns `Ok` exactly on input that is
/// valid UTF-8, and the string it returns is that input's decoding.
#[verifier::external_body]
fn bytes_as_str(bytes: &[u8]) -> (r: Option<&str>)
    ensures
        r is Some <==> valid_utf8(bytes@),
        r matches Some(s) ==> s@ == decode_utf8(bytes@),
{
    match core::str::from_utf8(bytes) {
        Ok(s) => Some(s),
        Err(_) => None,
    }
}

/// Encodes a command as the bytes of one whole frame: the frame text
/// followed by the frame terminator.
pub fn encode_frame(c: &Command) -> (r: Vec<u8>)
    ensures
        r@ == encode_utf8(spec_encode(c@)) + seq![FRAME_END],
{
    let s = encode(c);
    let mut bytes = s.as_str().as_bytes_vec();
    bytes.push(FRAME_END);
    proof {
        assert(bytes@ =~= encode_utf8(spec_encode(c@)) + seq![FRAME_END]);
    }
    bytes
}

/// Decodes one terminator-stripped frame: the bytes must be valid text,
/// and the text must parse as a command; the two failures are told apart.
pub fn decode_frame(bytes: &[u8]) -> (r: Result<Command, DecodeError>)
    ensures
        !valid_utf8(bytes@) ==> (r matches Err(e) && e is Encoding),
        valid_utf8(bytes@) ==> {
            &&& r is Ok <==> spec_decode(decode_utf8(bytes@)) is Some
            &&& (r matches Ok(c) ==> Some(c@) == spec_decode(decode_utf8(bytes@)))
            &&& (r matches Err(e) ==> e is Parse)
        },
{
    match bytes_as_str(bytes) {
        Some(s) => match decode(s) {
            Ok(c) => Ok(c),
            Err(CommandParseError) => Err(DecodeError::Parse),
        },
        None => Err(DecodeError::Encoding),
    }
}

/// The encoding of any character but the frame terminator itself is free
/// of the terminator byte: a width-one encoding is the character's own
/// code, and every byte of a wider encoding has its high bit set.
proof fn lemma_encode_scalar_no_frame_end(c: char)
    requires
        c != '\n',
    ensures
        forall|j: int|
            0 <= j < encode_scalar(c as u32).len() ==> #[trigger] encode_scalar(c as u32)[j]
                != FRAME_END,
{
    let s = c as u32;
    char_is_scalar(c);
    if s <= 0x7F {
        if s == 10 {
            char_u32_cast(c, s);
            char_u32_cast('\n', 10);
            assert(c == '\n');
        }
        assert((s & 0x7F) as u8 != 10) by (bit_vector)
            requires
                s <= 0x7F && s != 10,
        ;
    } else {
        assert((0xC0 | ((s >> 6) & 0x1F) as u8) != 10) by (bit_vector);
        assert((0xE0 | ((s >> 12) & 0x0F) as u8) != 10) by (bit_vector);
        assert((0xF0 | ((s >> 18) & 0x7) as u8) != 10) by (bit_vector);
        assert((0x80 | (s & 0x3F) as u8) != 10) by (bit_vector);
        assert((0x80 | ((s >> 6) & 0x3F) as u8) != 10) by (bit_vector);
        assert((0x80 | ((s >> 12) & 0x3F) as u8) != 10) by (bit_vector);
    }
}

/// The encoding of terminator-free text is free of the terminator byte.
proof fn lemma_encode_utf8_no_frame_end(s: Seq<char>)
    requires
        forall|i: int| 0 <= i < s.len() ==> s[i] != '\n',
    ensures
        forall|j: int| 0 <= j < encode_utf8(s).len() ==> encode_utf8(s)[j] != FRAME_END,
    decreases s.len(),
{
    if s.len() > 0 {
        lemma_encode_scalar_no_frame_end(s[0]);
        assert(forall|i: int|
            0 <= i < s.drop_first().len() ==> #[trigger] s.drop_first()[i] != '\n');
        lemma_encode_utf8_no_frame_end(s.drop_first());
        let e = encode_utf8(s);
        let e0 = encode_scalar(s[0] as u32);
        let er = encode_utf8(s.drop_first());
        assert(e == e0 + er);
        assert forall|j: int| 0 <= j < e.len() implies e[j] != FRAME_END by {
            if j < e0.len() {
                assert(e[j] == e0[j]);
            } else {
                assert(e[j] == er[j - e0.len()]);
            }
        }
    }
}

/// Frame integrity: a command whose frame text contains no newline (and
/// whose identity fields avoid the delimiter) travels as exactly one
/// frame. Its wire bytes — the ones [`encode_frame`] produces — hold the
/// terminator only at the very end, so an empty buffer that has received
/// them, under whatever chunk division the transport chose, hands back
/// precisely the frame's text bytes; those are valid text and decode back
/// to the command itself.
pub proof fn lemma_frame_integrity(c: CommandModel)
    requires
        routable(c),
        forall|i: int| 0 <= i < spec_encode(c).len() ==> spec_encode(c)[i] != '\n',
    ensures
        ({
            let text = spec_encode(c);
            let enc = encode_utf8(text);
            let wire = enc + seq![FRAME_END];
            &&& find_frame_end(wire, 0) == enc.len()
            &&& wire.subrange(0, enc.len() as int) == enc
            &&& wire.subrange(enc.len() as int + 1, wire.len() as int) == Seq::<u8>::empty()
            &&& valid_utf8(enc)
            &&& decode_utf8(enc) == text
            &&& spec_decode(decode_utf8(enc)) == Some(c)
        }),
{
    let text = spec_encode(c);
    let enc = encode_utf8(text);
    let wire = enc + seq![FRAME_END];
    lemma_encode_utf8_no_frame_end(text);
    assert(forall|j: int| 0 <= j < enc.len() ==> wire[j] != FRAME_END);
    lemma_find_frame_end_at(wire, 0, enc.len() as int);
    assert(wire.subrange(0, enc.len() as int) =~= enc);
    assert(wire.subrange(enc.len() as int + 1, wire.len() as int) =~= Seq::<u8>::empty());
    encode_utf8_valid_utf8(text);
    encode_utf8_decode_utf8(text);
    lemma_decode_encode(c);
}

} // verus!
