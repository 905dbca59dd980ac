//! `\0`-framed CDP transport over the browser's inherited pipe fds.

use crate::json;
use crate::json::Json;
use crate::text;
use vstd::prelude::*;

verus! {

/// Bytes that a reader makes room for at the start.
pub const READ_CAPACITY: usize = 8192;

/// Errors on the CDP pipe transport.
#[derive(Debug)]
pub enum PipeError {
    /// The browser closed its end of the pipe (it exited or is exiting).
    Closed,
    /// A single CDP message exceeded the configured cap.
    FrameTooLarge {
        /// The configured cap in bytes.
        max_bytes: usize,
    },
    /// A frame was not valid JSON.
    BadJson(String),
    /// Underlying pipe I/O failure.
    Io(String),
}

impl PipeError {
    /// What the error says.
    pub open spec fn says(self) -> Seq<char> {
        match self {
            PipeError::Closed => "CDP pipe closed by the browser"@,
            PipeError::FrameTooLarge { max_bytes } => "CDP frame exceeds the "@ + text::decimal_of(
                max_bytes as nat,
            ) + "-byte cap"@,
            PipeError::BadJson(e) => "CDP frame is not valid JSON: "@ + e@,
            PipeError::Io(e) => "CDP pipe I/O error: "@ + e@,
        }
    }

    /// The error as text.
    pub fn message(&self) -> (r: String)
        ensures
            r@ == self.says(),
    {
        match self {
            PipeError::Closed => "CDP pipe closed by the browser".to_owned(),
            PipeError::FrameTooLarge { max_bytes } => {
                let mut s = "CDP frame exceeds the ".to_owned();
                s.append(text::decimal(*max_bytes as u128).as_str());
                s.append("-byte cap");
                s
            },
            PipeError::BadJson(e) => {
                let mut s = "CDP frame is not valid JSON: ".to_owned();
                s.append(e.as_str());
                s
            },
            PipeError::Io(e) => {
                let mut s = "CDP pipe I/O error: ".to_owned();
                s.append(e.as_str());
                s
            },
        }
    }
}

/// `bytes::BytesMut`, the growing read buffer.
#[verifier::external_type_specification]
#[verifier::external_body]
pub struct ExBytesMut(bytes::BytesMut);

/// `bytes::Bytes`, a frame cut off the read buffer.
#[verifier::external_type_specification]
#[verifier::external_body]
pub struct ExBytes(bytes::Bytes);

/// The bytes in a read buffer.
pub uninterp spec fn buffered(buf: bytes::BytesMut) -> Seq<u8>;

/// The bytes of a frame.
pub uninterp spec fn framed(frame: bytes::Bytes) -> Seq<u8>;

/// `memchr::memchr` returns the position of the first `needle` in `haystack`,
/// or nothing if there is none.
pub assume_specification[ memchr::memchr ](needle: u8, haystack: &[u8]) -> (r: Option<usize>)
    ensures
        r is None ==> !haystack@.contains(needle),
        r matches Some(i) ==> i < haystack@.len() && haystack@[i as int] == needle && (forall|
            j: int,
        |
            0 <= j < i ==> #[trigger] haystack@[j] != needle),
;

/// `bytes::BytesMut::with_capacity` makes an empty buffer.
pub assume_specification[ bytes::BytesMut::with_capacity ](capacity: usize) -> (r: bytes::BytesMut)
    requires
        capacity <= isize::MAX,
    ensures
        buffered(r) == Seq::<u8>::empty(),
;

/// `bytes::BytesMut::len` returns how many bytes the buffer holds.
pub assume_specification[ bytes::BytesMut::len ](buf: &bytes::BytesMut) -> (r: usize)
    ensures
        r as nat == buffered(*buf).len(),
;

/// `bytes::BytesMut::split_to` cuts the first `at` bytes off the buffer and
/// returns them; the rest stays.
pub assume_specification[ bytes::BytesMut::split_to ](buf: &mut bytes::BytesMut, at: usize) -> (r:
    bytes::BytesMut)
    requires
        at <= buffered(*old(buf)).len(),
    ensures
        buffered(r) == buffered(*old(buf)).take(at as int),
        buffered(*final(buf)) == buffered(*old(buf)).skip(at as int),
;

/// `bytes::BytesMut::freeze` makes a frame of the bytes in the buffer.
pub assume_specification[ bytes::BytesMut::freeze ](buf: bytes::BytesMut) -> (r: bytes::Bytes)
    ensures
        framed(r) == buffered(buf),
;

/// Calls `bytes::Buf::advance`, which drops the first `count` bytes of the
/// buffer.
#[verifier::external_body]
fn advance(buf: &mut bytes::BytesMut, count: usize)
    requires
        count <= buffered(*old(buf)).len(),
    ensures
        buffered(*final(buf)) == buffered(*old(buf)).skip(count as int),
{
    bytes::Buf::advance(buf, count)
}

/// Calls `Deref` of `bytes::BytesMut`: the buffer's bytes.
#[verifier::external_body]
fn contents(buf: &bytes::BytesMut) -> (r: &[u8])
    ensures
        r@ == buffered(*buf),
{
    buf
}

/// Calls `Deref` of `bytes::Bytes`: the frame's bytes.
#[verifier::external_body]
fn frame_contents(frame: &bytes::Bytes) -> (r: &[u8])
    ensures
        r@ == framed(*frame),
{
    frame
}

/// How many bytes stand in front of the first zero, or in all.
pub open spec fn frame_len(s: Seq<u8>) -> int
    decreases s.len(),
{
    if s.len() == 0 || s[0] == 0 {
        0
    } else {
        1 + frame_len(s.skip(1))
    }
}

/// What identifies the length in front of the first zero.
pub proof fn frame_len_is(s: Seq<u8>, n: int)
    requires
        0 <= n <= s.len(),
        forall|i: int| 0 <= i < n ==> #[trigger] s[i] != 0,
        n == s.len() || s[n] == 0,
    ensures
        frame_len(s) == n,
    decreases n,
{
    if n > 0 {
        let t = s.skip(1);
        assert forall|i: int| 0 <= i < n - 1 implies #[trigger] t[i] != 0 by {
            assert(t[i] == s[i + 1]);
        }
        frame_len_is(t, n - 1);
    }
}

/// What is next in a buffer.
#[verifier::ext_equal]
pub enum Next {
    /// A whole frame, and what follows its terminator.
    Frame(Seq<u8>, Seq<u8>),
    /// Nothing whole yet.
    Incomplete,
    /// More than `max_frame` bytes without a terminator.
    TooLarge,
}

/// What is next in a buffer: the bytes in front of the first zero, unless
/// they are too many.
pub open spec fn next_of(s: Seq<u8>, max_frame: nat) -> Next {
    let n = frame_len(s);
    if n > max_frame {
        Next::TooLarge
    } else if n < s.len() {
        Next::Frame(s.take(n), s.skip(n + 1))
    } else {
        Next::Incomplete
    }
}

/// Cuts the next frame off the buffer, if it is there. An incomplete frame
/// stays where it is.
pub fn take_frame(buf: &mut bytes::BytesMut, max_frame: usize) -> (r: Result<
    Option<bytes::Bytes>,
    PipeError,
>)
    ensures
        match next_of(buffered(*old(buf)), max_frame as nat) {
            Next::Frame(frame, rest) => (r matches Ok(Some(f)) && framed(f) == frame) && buffered(
                *final(buf),
            ) == rest,
            Next::Incomplete => r == Ok::<Option<bytes::Bytes>, PipeError>(None) && buffered(
                *final(buf),
            ) == buffered(*old(buf)),
            Next::TooLarge => r == Err::<Option<bytes::Bytes>, PipeError>(
                (PipeError::FrameTooLarge { max_bytes: max_frame }),
            ) && buffered(*final(buf)) == buffered(*old(buf)),
        },
{
    let ghost s = buffered(*buf);
    match memchr::memchr(0, contents(buf)) {
        Some(pos) => {
            proof {
                frame_len_is(s, pos as int);
            }
            if pos > max_frame {
                return Err(PipeError::FrameTooLarge { max_bytes: max_frame });
            }
            let frame = buf.split_to(pos).freeze();
            advance(buf, 1);
            assert(s.skip(pos as int).skip(1) =~= s.skip(pos + 1));
            return Ok(Some(frame));
        },
        None => {
            proof {
                assert forall|i: int| 0 <= i < s.len() implies #[trigger] s[i] != 0 by {
                    assert(s.contains(s[i]));
                }
                frame_len_is(s, s.len() as int);
            }
        },
    }
    if buf.len() > max_frame {
        return Err(PipeError::FrameTooLarge { max_bytes: max_frame });
    }
    Ok(None)
}

/// What goes over the pipe for one already-serialized CDP message.
pub fn frame_raw(frame: &[u8]) -> (r: Vec<u8>)
    ensures
        r@ == frame@.push(0),
{
    let mut out: Vec<u8> = Vec::new();
    out.extend_from_slice(frame);
    assert(out@ =~= frame@);
    out.push(0);
    out
}

/// What goes over the pipe for one CDP message: its JSON text and a zero.
pub fn frame_message(message: &Json) -> (r: Vec<u8>)
    ensures
        r@ == json::json_bytes(json::keyed(message@)).push(0),
        forall|i: int| 0 <= i < r@.len() - 1 ==> #[trigger] r@[i] != 0,
        json::plain(message@, 100) ==> json::json_parsed(r@.drop_last()) == Some(
            json::keyed(message@),
        ),
{
    let bytes = json::write(message);
    let r = frame_raw(bytes.as_slice());
    assert(r@.drop_last() =~= bytes@);
    r
}

/// Parses the JSON text of one CDP frame.
pub fn parse_frame(frame: &[u8]) -> (r: Result<Json, PipeError>)
    ensures
        r is Ok <==> json::json_parsed(frame@) is Some,
        r matches Ok(v) ==> json::json_parsed(frame@) == Some(v@),
        r matches Err(e) ==> (e matches PipeError::BadJson(m) && m@ == json::json_fault(frame@)),
{
    match json::parse(frame) {
        Ok(v) => Ok(v),
        Err(e) => Err(PipeError::BadJson(e)),
    }
}

/// A failed read or write: a broken pipe means that the browser is gone.
pub fn map_closed(broken_pipe: bool, detail: String) -> (r: PipeError)
    ensures
        r == (if broken_pipe {
            PipeError::Closed
        } else {
            PipeError::Io(detail)
        }),
{
    if broken_pipe {
        PipeError::Closed
    } else {
        PipeError::Io(detail)
    }
}

/// What a reader that waits for a frame is told.
#[derive(Debug)]
pub enum ReadEvent {
    /// A frame is wanted.
    Asked,
    /// A read put this many bytes into the buffer: none at all is the end of
    /// the stream.
    Read(usize),
    /// A read failed.
    Failed(PipeError),
}

/// How the wait for a frame ends.
pub enum Received {
    /// With a frame.
    Frame(Seq<u8>),
    /// With more than `max_frame` bytes without a terminator.
    TooLarge,
    /// With the end of the stream.
    Closed,
    /// With a failed read.
    Failed(PipeError),
}

/// The error that a wait without a frame ends with.
pub open spec fn fault_of(outcome: Received, max_frame: usize) -> PipeError {
    match outcome {
        Received::TooLarge => PipeError::FrameTooLarge { max_bytes: max_frame },
        Received::Failed(e) => e,
        _ => PipeError::Closed,
    }
}

/// How the wait for a frame goes on with `buf` in the buffer: how it ends, or
/// nothing if more is to be read; and what is in the buffer then.
pub open spec fn received(buf: Seq<u8>, event: ReadEvent, max_frame: nat) -> (
    Option<Received>,
    Seq<u8>,
) {
    match event {
        ReadEvent::Failed(e) => (Some(Received::Failed(e)), buf),
        ReadEvent::Read(0) => (Some(Received::Closed), buf),
        _ => match next_of(buf, max_frame) {
            Next::Frame(frame, rest) => (Some(Received::Frame(frame)), rest),
            Next::TooLarge => (Some(Received::TooLarge), buf),
            Next::Incomplete => (None, buf),
        },
    }
}

/// The read half: the bytes that have arrived and the frames in them.
pub struct CdpReader {
    /// Bytes that have arrived and belong to no received frame yet.
    pub buf: bytes::BytesMut,
    /// The largest frame that is accepted.
    pub max_frame: usize,
}

impl CdpReader {
    /// A reader that nothing has arrived at.
    pub fn new(max_frame: usize) -> (r: CdpReader)
        ensures
            buffered(r.buf) == Seq::<u8>::empty(),
            r.max_frame == max_frame,
    {
        CdpReader { buf: bytes::BytesMut::with_capacity(READ_CAPACITY), max_frame }
    }

    /// Receives the next raw CDP frame (JSON bytes, `\0` stripped): given out
    /// if it has arrived whole, otherwise the reader wants to be filled from the
    /// pipe and asked again. Partial data stays buffered.
    pub fn recv_raw(&mut self, event: ReadEvent) -> (r: Result<Option<bytes::Bytes>, PipeError>)
        ensures
            final(self).max_frame == old(self).max_frame,
            ({
                let (outcome, kept) = received(
                    buffered(old(self).buf),
                    event,
                    old(self).max_frame as nat,
                );
                &&& buffered(final(self).buf) == kept
                &&& match outcome {
                    None => r == Ok::<Option<bytes::Bytes>, PipeError>(None),
                    Some(Received::Frame(frame)) => r matches Ok(Some(f)) && framed(f) == frame,
                    Some(other) => r == Err::<Option<bytes::Bytes>, PipeError>(
                        fault_of(other, old(self).max_frame),
                    ),
                }
            }),
    {
        match event {
            ReadEvent::Failed(e) => {
                return Err(e);
            },
            ReadEvent::Read(count) => {
                if count == 0 {
                    return Err(PipeError::Closed);
                }
            },
            ReadEvent::Asked => {},
        }
        take_frame(&mut self.buf, self.max_frame)
    }

    /// Receives and parses the next CDP message. Probe/control use only.
    pub fn recv(&mut self, event: ReadEvent) -> (r: Result<Option<Json>, PipeError>)
        ensures
            final(self).max_frame == old(self).max_frame,
            ({
                let (outcome, kept) = received(
                    buffered(old(self).buf),
                    event,
                    old(self).max_frame as nat,
                );
                &&& buffered(final(self).buf) == kept
                &&& match outcome {
                    None => r == Ok::<Option<Json>, PipeError>(None),
                    Some(Received::Frame(frame)) => {
                        &&& json::json_parsed(frame) matches Some(v) ==> (r matches Ok(Some(j))
                            && j@ == v)
                        &&& json::json_parsed(frame) is None ==> (r matches Err(
                            PipeError::BadJson(m),
                        ) && m@ == json::json_fault(frame))
                    },
                    Some(other) => r == Err::<Option<Json>, PipeError>(
                        fault_of(other, old(self).max_frame),
                    ),
                }
            }),
    {
        match self.recv_raw(event) {
            Err(e) => Err(e),
            Ok(None) => Ok(None),
            Ok(Some(frame)) => match parse_frame(frame_contents(&frame)) {
                Ok(v) => Ok(Some(v)),
                Err(e) => Err(e),
            },
        }
    }
}

/// What goes over the pipe for a list of messages.
pub open spec fn stream_of(frames: Seq<Seq<u8>>) -> Seq<u8>
    decreases frames.len(),
{
    if frames.len() == 0 {
        Seq::empty()
    } else {
        frames[0].push(0) + stream_of(frames.skip(1))
    }
}

/// The frames that come out of a buffer, one after another, until nothing
/// whole is left.
pub open spec fn frames_of(s: Seq<u8>, max_frame: nat) -> Seq<Seq<u8>>
    decreases s.len(),
{
    match next_of(s, max_frame) {
        Next::Frame(frame, rest) => if rest.len() < s.len() {
            seq![frame] + frames_of(rest, max_frame)
        } else {
            Seq::empty()
        },
        _ => Seq::empty(),
    }
}

/// A message on the pipe is received as it was sent, whatever follows it.
pub proof fn sent_frame_is_received(frame: Seq<u8>, rest: Seq<u8>, max_frame: nat)
    requires
        forall|i: int| 0 <= i < frame.len() ==> #[trigger] frame[i] != 0,
        frame.len() <= max_frame,
    ensures
        next_of(frame.push(0) + rest, max_frame) == Next::Frame(frame, rest),
{
    let s = frame.push(0) + rest;
    frame_len_is(s, frame.len() as int);
    assert(s.take(frame.len() as int) =~= frame);
    assert(s.skip(frame.len() as int + 1) =~= rest);
}

/// What stays in a buffer once every whole frame has come out.
pub open spec fn left_of(s: Seq<u8>, max_frame: nat) -> Seq<u8>
    decreases s.len(),
{
    match next_of(s, max_frame) {
        Next::Frame(_, rest) => if rest.len() < s.len() {
            left_of(rest, max_frame)
        } else {
            s
        },
        _ => s,
    }
}

/// Messages come out of the pipe in the order they were sent, each as it was
/// sent, and nothing else comes out. The beginning of a message that has not
/// arrived whole stays in the buffer.
pub proof fn frames_arrive_in_order(frames: Seq<Seq<u8>>, part: Seq<u8>, max_frame: nat)
    requires
        forall|k: int, i: int|
            0 <= k < frames.len() && 0 <= i < frames[k].len() ==> #[trigger] frames[k][i] != 0,
        forall|k: int| 0 <= k < frames.len() ==> (#[trigger] frames[k]).len() <= max_frame,
        forall|i: int| 0 <= i < part.len() ==> #[trigger] part[i] != 0,
    ensures
        frames_of(stream_of(frames) + part, max_frame) == frames,
        left_of(stream_of(frames) + part, max_frame) == part,
    decreases frames.len(),
{
    let s = stream_of(frames) + part;
    if frames.len() > 0 {
        let rest = frames.skip(1);
        assert forall|k: int, i: int|
            0 <= k < rest.len() && 0 <= i < rest[k].len() implies #[trigger] rest[k][i] != 0 by {
            assert(frames[k + 1][i] != 0);
        }
        frames_arrive_in_order(rest, part, max_frame);
        assert forall|i: int| 0 <= i < frames[0].len() implies #[trigger] frames[0][i] != 0 by {}
        sent_frame_is_received(frames[0], stream_of(rest) + part, max_frame);
        assert(s =~= frames[0].push(0) + (stream_of(rest) + part));
        assert(frames_of(s, max_frame) =~= frames);
    } else {
        assert(s =~= part);
        frame_len_is(part, part.len() as int);
        assert(frames_of(s, max_frame) =~= frames);
    }
}

/// All bytes of the chunks in which they arrive.
pub open spec fn arriving(chunks: Seq<Seq<u8>>) -> Seq<u8>
    decreases chunks.len(),
{
    if chunks.len() == 0 {
        Seq::empty()
    } else {
        chunks[0] + arriving(chunks.skip(1))
    }
}

/// Waiting for the next frame from this event on, with `buf` in the buffer,
/// when reads give these chunks and then the end of the stream: how it ends,
/// what is in the buffer then and which chunks have not been read.
pub open spec fn receiving(
    buf: Seq<u8>,
    event: ReadEvent,
    chunks: Seq<Seq<u8>>,
    max_frame: nat,
) -> (Received, Seq<u8>, Seq<Seq<u8>>)
    decreases chunks.len(),
{
    match received(buf, event, max_frame) {
        (Some(outcome), kept) => (outcome, kept, chunks),
        (None, kept) => if chunks.len() == 0 {
            (received(kept, ReadEvent::Read(0), max_frame).0->0, kept, chunks)
        } else {
            receiving(
                kept + chunks[0],
                ReadEvent::Read(chunks[0].len() as usize),
                chunks.skip(1),
                max_frame,
            )
        },
    }
}

/// How the wait for a frame ends depends on the bytes only, not on the chunks
/// in which they arrive: with the bytes in front of the first zero, if they are
/// not too many; with too many bytes without a zero; or with the end of the
/// stream before either. No byte behind the frame's terminator is lost, and
/// none at all as long as no frame came.
pub proof fn receiving_ignores_chunks(
    buf: Seq<u8>,
    event: ReadEvent,
    chunks: Seq<Seq<u8>>,
    max_frame: nat,
)
    requires
        event is Asked || (event matches ReadEvent::Read(n) && n > 0),
        forall|i: int| 0 <= i < chunks.len() ==> 0 < (#[trigger] chunks[i]).len() <= usize::MAX,
    ensures
        ({
            let all = buf + arriving(chunks);
            let (outcome, kept, unread) = receiving(buf, event, chunks, max_frame);
            match next_of(all, max_frame) {
                Next::Frame(frame, rest) => outcome == Received::Frame(frame) && kept + arriving(
                    unread,
                ) == rest,
                Next::TooLarge => outcome is TooLarge && kept + arriving(unread) == all,
                Next::Incomplete => outcome is Closed && kept == all && unread.len() == 0,
            }
        }),
    decreases chunks.len(),
{
    let all = buf + arriving(chunks);
    let n = frame_len(buf);
    frame_len_bounds(buf);
    match next_of(buf, max_frame) {
        Next::Frame(frame, rest) => {
            assert(all[n] == buf[n]);
            assert forall|i: int| 0 <= i < n implies #[trigger] all[i] != 0 by {
                assert(all[i] == buf[i]);
            }
            frame_len_is(all, n);
            assert(all.take(n) =~= frame);
            assert(rest + arriving(chunks) =~= all.skip(n + 1));
        },
        Next::TooLarge => {
            frame_len_bounds(all);
            if frame_len(all) < n {
                assert(all[frame_len(all)] == buf[frame_len(all)]);
            }
        },
        Next::Incomplete => {
            if chunks.len() == 0 {
                assert(all =~= buf);
            } else {
                let rest = chunks.skip(1);
                assert forall|i: int| 0 <= i < rest.len() implies 0 < (#[trigger] rest[i]).len()
                    <= usize::MAX by {
                    assert(rest[i] == chunks[i + 1]);
                }
                assert(0 < chunks[0].len() <= usize::MAX);
                receiving_ignores_chunks(
                    buf + chunks[0],
                    ReadEvent::Read(chunks[0].len() as usize),
                    rest,
                    max_frame,
                );
                assert(all =~= (buf + chunks[0]) + arriving(rest));
            }
        },
    }
}

/// A frame that has only partly arrived changes nothing, and is received once
/// its rest is there.
pub proof fn partial_frame_survives(part: Seq<u8>, rest: Seq<u8>, max_frame: nat)
    requires
        next_of(part, max_frame) is Incomplete,
        forall|i: int| 0 <= i < rest.len() ==> #[trigger] rest[i] != 0,
        part.len() + rest.len() <= max_frame,
    ensures
        next_of((part + rest).push(0), max_frame) == Next::Frame(part + rest, Seq::<u8>::empty()),
{
    let frame = part + rest;
    frame_len_bounds(part);
    assert forall|i: int| 0 <= i < frame.len() implies #[trigger] frame[i] != 0 by {
        if i < part.len() {
            assert(part[i] != 0);
        } else {
            assert(rest[i - part.len()] != 0);
        }
    }
    sent_frame_is_received(frame, Seq::empty(), max_frame);
    assert(frame.push(0) + Seq::<u8>::empty() =~= frame.push(0));
}

proof fn frame_len_bounds(s: Seq<u8>)
    ensures
        0 <= frame_len(s) <= s.len(),
        frame_len(s) < s.len() ==> s[frame_len(s)] == 0,
        forall|i: int| 0 <= i < frame_len(s) ==> #[trigger] s[i] != 0,
    decreases s.len(),
{
    if s.len() > 0 && s[0] != 0 {
        frame_len_bounds(s.skip(1));
        assert forall|i: int| 0 <= i < frame_len(s) implies #[trigger] s[i] != 0 by {
            if i > 0 {
                assert(s.skip(1)[i - 1] != 0);
            }
        }
    }
}

} // verus!
