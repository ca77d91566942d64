//! The wire protocol between the launcher and the daemon: frames of one tag
//! byte and a payload, all numbers 32 bits wide and big-endian.

use byteorder::ByteOrder;
use vstd::arithmetic::div_mod::lemma_fundamental_div_mod_converse;
use vstd::prelude::*;
use vstd::slice::slice_subrange;
use vstd::slice::slice_to_vec;

verus! {

/// The tag of a frame that carries what the remote process wrote to its
/// standard error.
pub const TAG_STDERR: u8 = 101;

/// The tag of a frame that carries what the remote process wrote to its
/// standard output.
pub const TAG_STDOUT: u8 = 111;

/// The tag of the frame that ends a session with the exit code.
pub const TAG_EXIT: u8 = 120;

/// The tag of the frame that asks the daemon to deliver a signal. Only the
/// launcher sends it.
pub const TAG_SIGNAL: u8 = 107;

/// One event of a session.
#[derive(PartialEq, Eq, Debug)]
pub enum Input {
    Exit(i32),
    Signal(i32),
    StdIn(Vec<u8>),
    StdOut(Vec<u8>),
    StdErr(Vec<u8>),
}

/// An `Input` with its bytes as a sequence.
pub enum InputView {
    Exit(i32),
    Signal(i32),
    StdIn(Seq<u8>),
    StdOut(Seq<u8>),
    StdErr(Seq<u8>),
}

impl View for Input {
    type V = InputView;

    open spec fn view(&self) -> InputView {
        match *self {
            Input::Exit(code) => InputView::Exit(code),
            Input::Signal(number) => InputView::Signal(number),
            Input::StdIn(bytes) => InputView::StdIn(bytes@),
            Input::StdOut(bytes) => InputView::StdOut(bytes@),
            Input::StdErr(bytes) => InputView::StdErr(bytes@),
        }
    }
}

impl DeepView for Input {
    type V = InputView;

    open spec fn deep_view(&self) -> InputView {
        self@
    }
}

/// Why a stream of frames could not be decoded.
#[derive(Clone, Copy, PartialEq, Eq, Debug, Structural)]
pub enum ProtoError {
    /// The stream ended `missing` bytes before the end of what was being
    /// read.
    UnexpectedEof { missing: usize },
    /// A frame began with a tag that the protocol does not have.
    UnknownCode(u8),
    /// A payload announced a negative length.
    InvalidLength(i32),
}

/// The unsigned value of four bytes, most significant byte first.
pub open spec fn be_u32(b: Seq<u8>) -> int {
    b[0] * 0x100_0000 + b[1] * 0x1_0000 + b[2] * 0x100 + b[3]
}

/// The two's complement value of four bytes, most significant byte first.
pub open spec fn be_i32(b: Seq<u8>) -> int {
    if be_u32(b) >= 0x8000_0000 {
        be_u32(b) - 0x1_0000_0000
    } else {
        be_u32(b)
    }
}

/// The four bytes that hold `v` in two's complement, most significant byte
/// first.
pub open spec fn be_bytes(v: int) -> Seq<u8> {
    let u = if v < 0 {
        v + 0x1_0000_0000
    } else {
        v
    };
    seq![
        (u / 0x100_0000) as u8,
        ((u / 0x1_0000) % 0x100) as u8,
        ((u / 0x100) % 0x100) as u8,
        (u % 0x100) as u8,
    ]
}

/// Writing a number and reading the bytes gives the number back.
pub proof fn lemma_be_bytes_read_back(v: i32)
    ensures
        be_bytes(v as int).len() == 4,
        be_i32(be_bytes(v as int)) == v,
{
}

/// Reading four bytes gives a 32-bit number, and writing it gives the bytes
/// back.
pub proof fn lemma_be_i32_written_back(b: Seq<u8>)
    requires
        b.len() == 4,
    ensures
        i32::MIN <= be_i32(b) <= i32::MAX,
        be_bytes(be_i32(b)) == b,
{
    let low = b[1] * 0x1_0000 + b[2] * 0x100 + b[3];
    let u = be_u32(b);
    lemma_fundamental_div_mod_converse(u, 0x100_0000, b[0] as int, low);
    lemma_fundamental_div_mod_converse(u, 0x1_0000, b[0] * 0x100 + b[1], b[2] * 0x100 + b[3]);
    lemma_fundamental_div_mod_converse(u, 0x100, b[0] * 0x1_0000 + b[1] * 0x100 + b[2], b[3] as int);
    lemma_fundamental_div_mod_converse(b[0] * 0x100 + b[1], 0x100, b[0] as int, b[1] as int);
    lemma_fundamental_div_mod_converse(
        b[0] * 0x1_0000 + b[1] * 0x100 + b[2],
        0x100,
        b[0] * 0x100 + b[1],
        b[2] as int,
    );
}

/// `byteorder::BigEndian::read_i32`: the first four bytes of `bytes` taken as
/// a big-endian two's complement number. The outside function panics on
/// fewer than four bytes, which `requires` leaves out.
#[verifier::external_body]
fn read_i32_be(bytes: &[u8]) -> (value: i32)
    requires
        bytes@.len() >= 4,
    ensures
        value == be_i32(bytes@.subrange(0, 4)),
{
    byteorder::BigEndian::read_i32(bytes)
}

/// `byteorder::BigEndian::write_i32` on a buffer of four bytes: the bytes
/// that hold `value` as a big-endian two's complement number.
#[verifier::external_body]
fn encode_i32(value: i32) -> (bytes: Vec<u8>)
    ensures
        bytes@ == be_bytes(value as int),
{
    let mut buf: Vec<u8> = vec![0u8; 4];
    byteorder::BigEndian::write_i32(&mut buf, value);
    buf
}

/// The bytes of `s` at and after position `at`; none where `at` lies behind
/// the end.
pub open spec fn rest(s: Seq<u8>, at: int) -> Seq<u8> {
    if 0 <= at <= s.len() {
        s.skip(at)
    } else {
        Seq::empty()
    }
}

/// How many bytes of `s` lie at and after position `at`.
pub open spec fn remaining(s: Seq<u8>, at: int) -> int {
    rest(s, at).len() as int
}

/// The `num` bytes of `s` at position `at`, or by how many the stream is
/// short of them.
pub open spec fn bytes_at(s: Seq<u8>, at: int, num: int) -> Result<Seq<u8>, ProtoError> {
    if num <= remaining(s, at) {
        Ok(rest(s, at).take(num))
    } else {
        Err(ProtoError::UnexpectedEof { missing: (num - remaining(s, at)) as usize })
    }
}

/// The number in the four bytes of `s` at position `at`.
pub open spec fn number_at(s: Seq<u8>, at: int) -> Result<i32, ProtoError> {
    match bytes_at(s, at, 4) {
        Ok(b) => Ok(be_i32(b) as i32),
        Err(e) => Err(e),
    }
}

/// The payload that begins at position `at` of `s`: four bytes of length,
/// then that many bytes.
pub open spec fn payload_at(s: Seq<u8>, at: int) -> Result<Seq<u8>, ProtoError> {
    match number_at(s, at) {
        Ok(n) => if n < 0 {
            Err(ProtoError::InvalidLength(n))
        } else {
            bytes_at(s, at + 4, n as int)
        },
        Err(e) => Err(e),
    }
}

/// The frame that begins at position `at` of `s`, with the position that
/// follows it.
pub open spec fn frame_at(s: Seq<u8>, at: int) -> Result<(InputView, int), ProtoError> {
    match bytes_at(s, at, 1) {
        Ok(t) => if t[0] == TAG_STDERR {
            match payload_at(s, at + 1) {
                Ok(p) => Ok((InputView::StdErr(p), at + 5 + p.len() as int)),
                Err(e) => Err(e),
            }
        } else if t[0] == TAG_STDOUT {
            match payload_at(s, at + 1) {
                Ok(p) => Ok((InputView::StdOut(p), at + 5 + p.len() as int)),
                Err(e) => Err(e),
            }
        } else if t[0] == TAG_EXIT {
            match number_at(s, at + 1) {
                Ok(code) => Ok((InputView::Exit(code), at + 5)),
                Err(e) => Err(e),
            }
        } else {
            Err(ProtoError::UnknownCode(t[0]))
        },
        Err(e) => Err(e),
    }
}

/// The events of the frames of `s` from position `at` on, up to and with
/// the exit frame, and how decoding ended: well after an exit frame, with
/// an error anywhere else.
pub open spec fn frames_from(s: Seq<u8>, at: int) -> (Seq<InputView>, Result<(), ProtoError>)
    decreases remaining(s, at),
{
    match frame_at(s, at) {
        Err(e) => (Seq::empty(), Err(e)),
        Ok((event, next)) => if event is Exit {
            (seq![event], Ok(()))
        } else {
            let later = frames_from(s, next);
            (seq![event] + later.0, later.1)
        },
    }
}

/// A payload behind its length.
pub open spec fn length_prefixed(p: Seq<u8>) -> Seq<u8> {
    be_bytes(p.len() as int) + p
}

/// Whether `tag` begins a frame that the daemon sends.
pub open spec fn is_known_tag(tag: u8) -> bool {
    tag == TAG_STDERR || tag == TAG_STDOUT || tag == TAG_EXIT
}

/// What a read of bytes gave, with the bytes as a sequence.
pub open spec fn bytes_read(r: Result<Vec<u8>, ProtoError>) -> Result<Seq<u8>, ProtoError> {
    match r {
        Ok(bytes) => Ok(bytes@),
        Err(e) => Err(e),
    }
}

/// What a read of a frame gave, with the event's bytes as a sequence.
pub open spec fn frame_read(r: Result<(Input, usize), ProtoError>) -> Result<
    (InputView, int),
    ProtoError,
> {
    match r {
        Ok((event, next)) => Ok((event@, next as int)),
        Err(e) => Err(e),
    }
}

/// A payload that is written behind its length is read back as it was,
/// whatever follows it.
pub proof fn lemma_payload_round_trip(p: Seq<u8>, more: Seq<u8>)
    requires
        p.len() <= i32::MAX,
    ensures
        (payload_at(length_prefixed(p) + more, 0) matches Ok(q) && q == p),
        (frame_at(seq![TAG_STDOUT] + length_prefixed(p) + more, 0) matches Ok(f) && f == (
            InputView::StdOut(p),
            5 + p.len() as int,
        )),
        (frame_at(seq![TAG_STDERR] + length_prefixed(p) + more, 0) matches Ok(f) && f == (
            InputView::StdErr(p),
            5 + p.len() as int,
        )),
{
    let n = p.len() as int;
    lemma_be_bytes_read_back(n as i32);
    let out = seq![TAG_STDOUT] + length_prefixed(p) + more;
    assert(rest(out, 5).take(n) =~= p);
    let err = seq![TAG_STDERR] + length_prefixed(p) + more;
    assert(rest(err, 5).take(n) =~= p);
}

/// A stream that begins with a tag that the protocol does not have gives no
/// event and the error that names the tag.
pub proof fn lemma_unknown_tag(s: Seq<u8>)
    requires
        s.len() > 0,
        !is_known_tag(s[0]),
    ensures
        (frame_at(s, 0) matches Err(e) && e == ProtoError::UnknownCode(s[0])),
        frames_from(s, 0).0.len() == 0,
        (frames_from(s, 0).1 matches Err(e) && e == ProtoError::UnknownCode(s[0])),
{
}

/// The number in the first four bytes of `vec`.
pub fn decode_i32(vec: &Vec<u8>) -> (r: Result<i32, ProtoError>)
    ensures
        r == number_at(vec@, 0),
{
    if vec.len() < 4 {
        Err(ProtoError::UnexpectedEof { missing: 4 - vec.len() })
    } else {
        Ok(read_i32_be(vec.as_slice()))
    }
}

/// Reads exactly `num` bytes of `stream` at position `at`.
pub fn read_bytes(stream: &[u8], at: usize, num: usize) -> (r: Result<Vec<u8>, ProtoError>)
    ensures
        bytes_read(r) == bytes_at(stream@, at as int, num as int),
{
    let len: usize = stream.len();
    let left: usize = if at <= len {
        len - at
    } else {
        0
    };
    if num == 0 {
        let none: Vec<u8> = Vec::new();
        assert(rest(stream@, at as int).take(0) =~= none@);
        Ok(none)
    } else if num <= left {
        let bytes: Vec<u8> = slice_to_vec(slice_subrange(stream, at, at + num));
        assert(rest(stream@, at as int).take(num as int) =~= bytes@);
        Ok(bytes)
    } else {
        Err(ProtoError::UnexpectedEof { missing: num - left })
    }
}

/// Reads the payload at position `at` of `stream`: a length of four bytes,
/// then that many bytes.
pub fn read_payload(stream: &[u8], at: usize) -> (r: Result<Vec<u8>, ProtoError>)
    ensures
        bytes_read(r) == payload_at(stream@, at as int),
{
    match read_number(stream, at) {
        Err(e) => Err(e),
        Ok(size) => {
            let end: usize = stream.len();
            assert(at + 4 <= end);
            if size < 0 {
                Err(ProtoError::InvalidLength(size))
            } else {
                read_bytes(stream, at + 4, size as usize)
            }
        },
    }
}

/// Reads the number in the four bytes at position `at` of `stream`.
fn read_number(stream: &[u8], at: usize) -> (r: Result<i32, ProtoError>)
    ensures
        r == number_at(stream@, at as int),
{
    match read_bytes(stream, at, 4) {
        Err(e) => Err(e),
        Ok(bytes) => decode_i32(&bytes),
    }
}

/// Reads the frame that begins at position `at` of `stream`. Gives its
/// event and the position that follows it, or, where the stream ends inside
/// the frame, by how many bytes it is short of the part being read.
pub fn read_frame(stream: &[u8], at: usize) -> (r: Result<(Input, usize), ProtoError>)
    ensures
        frame_read(r) == frame_at(stream@, at as int),
        r matches Ok((_, next)) ==> at < next <= stream@.len(),
        at < stream@.len() && !is_known_tag(stream@[at as int]) ==> (r matches Err(e) && e
            == ProtoError::UnknownCode(stream@[at as int])),
{
    let tag: u8 = match read_bytes(stream, at, 1) {
        Err(e) => {
            return Err(e);
        },
        Ok(t) => t[0],
    };
    let end: usize = stream.len();
    assert(at < end);
    if tag == TAG_STDERR {
        match read_payload(stream, at + 1) {
            Err(e) => Err(e),
            Ok(payload) => {
                let next: usize = at + 5 + payload.len();
                Ok((Input::StdErr(payload), next))
            },
        }
    } else if tag == TAG_STDOUT {
        match read_payload(stream, at + 1) {
            Err(e) => Err(e),
            Ok(payload) => {
                let next: usize = at + 5 + payload.len();
                Ok((Input::StdOut(payload), next))
            },
        }
    } else if tag == TAG_EXIT {
        match read_number(stream, at + 1) {
            Err(e) => Err(e),
            Ok(code) => Ok((Input::Exit(code), at + 5)),
        }
    } else {
        Err(ProtoError::UnknownCode(tag))
    }
}

/// Decodes the frames of `stream` from its beginning, up to and with the
/// exit frame. Gives the events in order and how decoding ended: `Ok` after
/// an exit frame, else the error that stopped it. Bytes behind an exit
/// frame are not read.
pub fn read_handler(stream: &[u8]) -> (r: (Vec<Input>, Result<(), ProtoError>))
    ensures
        (r.0.deep_view(), r.1) == frames_from(stream@, 0),
        stream@.len() > 0 && !is_known_tag(stream@[0]) ==> r.0@.len() == 0 && (r.1 matches Err(e)
            && e == ProtoError::UnknownCode(stream@[0])),
{
    let mut events: Vec<Input> = Vec::new();
    let mut at: usize = 0;
    let ghost s = stream@;
    loop
        invariant
            s == stream@,
            at <= s.len(),
            frames_from(s, 0) == (
                events.deep_view() + frames_from(s, at as int).0,
                frames_from(s, at as int).1,
            ),
            at == 0 ==> events@.len() == 0,
        decreases s.len() - at,
    {
        match read_frame(stream, at) {
            Err(e) => {
                return (events, Err(e));
            },
            Ok((event, next)) => {
                let done: bool = match event {
                    Input::Exit(_) => true,
                    _ => false,
                };
                events.push(event);
                if done {
                    return (events, Ok(()));
                }
                at = next;
            },
        }
    }
}

/// What the reader of the daemon's stream does next.
#[derive(PartialEq, Eq, Debug)]
pub enum ReadStep {
    /// Push the event, drop the first `consumed` bytes, and go on.
    Forward { event: Input, consumed: usize },
    /// Push the event and stop: it ends the session.
    Last(Input),
    /// Read exactly this many bytes more; where they do not come, push the
    /// error and stop.
    Need(usize),
    /// Push this error, which ends the session as failed, and stop.
    Fail(ProtoError),
}

/// A `ReadStep` with its bytes as a sequence.
pub enum ReadStepView {
    Forward { event: InputView, consumed: int },
    Last(InputView),
    Need(usize),
    Fail(ProtoError),
}

impl View for ReadStep {
    type V = ReadStepView;

    open spec fn view(&self) -> ReadStepView {
        match *self {
            ReadStep::Forward { event, consumed } => ReadStepView::Forward {
                event: event@,
                consumed: consumed as int,
            },
            ReadStep::Last(event) => ReadStepView::Last(event@),
            ReadStep::Need(missing) => ReadStepView::Need(missing),
            ReadStep::Fail(e) => ReadStepView::Fail(e),
        }
    }
}

/// What the reader does when it holds `received`, the bytes that it has
/// read and not yet used: a whole frame at their beginning is forwarded, a
/// part of one asks for the bytes that its next part lacks.
pub open spec fn read_step_of(received: Seq<u8>) -> ReadStepView {
    match frame_at(received, 0) {
        Ok((event, next)) => if event is Exit {
            ReadStepView::Last(event)
        } else {
            ReadStepView::Forward { event, consumed: next }
        },
        Err(ProtoError::UnexpectedEof { missing }) => ReadStepView::Need(missing),
        Err(e) => ReadStepView::Fail(e),
    }
}

/// What the reader of the daemon's stream does when it holds `received`,
/// the bytes that it has read and not yet used.
pub fn read_step(received: &[u8]) -> (step: ReadStep)
    ensures
        step@ == read_step_of(received@),
        step matches ReadStep::Forward { event, consumed } ==> 0 < consumed <= received@.len(),
{
    match read_frame(received, 0) {
        Ok((event, next)) => {
            let last: bool = match event {
                Input::Exit(_) => true,
                _ => false,
            };
            if last {
                ReadStep::Last(event)
            } else {
                ReadStep::Forward { event, consumed: next }
            }
        },
        Err(ProtoError::UnexpectedEof { missing }) => ReadStep::Need(missing),
        Err(e) => ReadStep::Fail(e),
    }
}

/// Reads the process id with which the daemon answers an upload: the number
/// in the first four bytes of `stream`, if there are four.
pub fn read_pid_handler(stream: &[u8]) -> (pid: Option<i32>)
    ensures
        stream@.len() >= 4 ==> pid == Some(be_i32(stream@.subrange(0, 4)) as i32),
        stream@.len() < 4 ==> pid is None,
{
    match read_number(stream, 0) {
        Ok(pid) => Some(pid),
        Err(_) => None,
    }
}

/// Where bytes are to go.
#[derive(Clone, Copy, PartialEq, Eq, Debug, Structural)]
pub enum Sink {
    /// The write half of the primary connection.
    Daemon,
    /// A connection of its own, opened for this one write and then closed.
    FreshConnection,
    /// The launcher's standard output.
    StdOut,
    /// The launcher's standard error.
    StdErr,
}

/// Bytes to write in full to a sink. A write that fails ends the session
/// as failed.
#[derive(PartialEq, Eq, Debug)]
pub struct Output {
    pub sink: Sink,
    pub bytes: Vec<u8>,
}

/// An `Output` with its bytes as a sequence.
pub struct OutputView {
    pub sink: Sink,
    pub bytes: Seq<u8>,
}

impl View for Output {
    type V = OutputView;

    open spec fn view(&self) -> OutputView {
        OutputView { sink: self.sink, bytes: self.bytes@ }
    }
}

impl DeepView for Output {
    type V = OutputView;

    open spec fn deep_view(&self) -> OutputView {
        self@
    }
}

/// What the dispatcher does with one event.
#[derive(PartialEq, Eq, Debug)]
pub enum Step {
    /// Write, and go on with the next event.
    Deliver(Output),
    /// Stop: the session ended with this exit code.
    Exit(i32),
}

/// A `Step` with its bytes as a sequence.
pub enum StepView {
    Deliver(OutputView),
    Exit(i32),
}

impl View for Step {
    type V = StepView;

    open spec fn view(&self) -> StepView {
        match *self {
            Step::Deliver(output) => StepView::Deliver(output@),
            Step::Exit(code) => StepView::Exit(code),
        }
    }
}

/// The nine bytes that ask the daemon to deliver signal `signal` to the
/// process `pid`.
pub open spec fn signal_frame_bytes(pid: i32, signal: i32) -> Seq<u8> {
    seq![TAG_SIGNAL] + be_bytes(pid as int) + be_bytes(signal as int)
}

/// What the dispatcher does with `event` in the session of process `pid`.
pub open spec fn step_of(pid: i32, event: InputView) -> StepView {
    match event {
        InputView::Exit(code) => StepView::Exit(code),
        InputView::StdIn(bytes) => StepView::Deliver(OutputView { sink: Sink::Daemon, bytes }),
        InputView::Signal(signal) => StepView::Deliver(
            OutputView { sink: Sink::FreshConnection, bytes: signal_frame_bytes(pid, signal) },
        ),
        InputView::StdOut(bytes) => StepView::Deliver(OutputView { sink: Sink::StdOut, bytes }),
        InputView::StdErr(bytes) => StepView::Deliver(OutputView { sink: Sink::StdErr, bytes }),
    }
}

/// What a session does with the events from index `i` on: the writes in
/// order, up to the first exit event, and its exit code; no exit code where
/// the events end before one.
pub open spec fn session_from(pid: i32, events: Seq<InputView>, i: int) -> (
    Seq<OutputView>,
    Option<i32>,
)
    decreases events.len() - i,
{
    if i < 0 || i >= events.len() {
        (Seq::empty(), None)
    } else {
        match step_of(pid, events[i]) {
            StepView::Exit(code) => (Seq::empty(), Some(code)),
            StepView::Deliver(output) => {
                let later = session_from(pid, events, i + 1);
                (seq![output] + later.0, later.1)
            },
        }
    }
}

/// What a session of process `pid` does with `events`.
pub open spec fn session(pid: i32, events: Seq<InputView>) -> (Seq<OutputView>, Option<i32>) {
    session_from(pid, events, 0)
}

/// How many of the events from index `i` on are signals that a session
/// handles: those before the first exit event.
pub open spec fn signals_from(events: Seq<InputView>, i: int) -> nat
    decreases events.len() - i,
{
    if i < 0 || i >= events.len() || events[i] is Exit {
        0
    } else if events[i] is Signal {
        1 + signals_from(events, i + 1)
    } else {
        signals_from(events, i + 1)
    }
}

/// How many of the writes go to a connection of their own.
pub open spec fn fresh_connections(outputs: Seq<OutputView>) -> nat
    decreases outputs.len(),
{
    if outputs.len() == 0 {
        0
    } else if outputs[0].sink == Sink::FreshConnection {
        1 + fresh_connections(outputs.skip(1))
    } else {
        fresh_connections(outputs.skip(1))
    }
}

proof fn lemma_session_from(pid: i32, events: Seq<InputView>, i: int)
    requires
        0 <= i <= events.len(),
    ensures
        i + session_from(pid, events, i).0.len() <= events.len(),
        forall|k: int|
            0 <= k < session_from(pid, events, i).0.len() ==> step_of(pid, events[i + k])
                == StepView::Deliver(#[trigger] session_from(pid, events, i).0[k]),
        i + session_from(pid, events, i).0.len() < events.len() ==> step_of(
            pid,
            events[i + session_from(pid, events, i).0.len()],
        ) is Exit && session_from(pid, events, i).1 == Some(
            step_of(pid, events[i + session_from(pid, events, i).0.len()])->Exit_0,
        ),
        i + session_from(pid, events, i).0.len() == events.len() ==> session_from(
            pid,
            events,
            i,
        ).1 is None,
        fresh_connections(session_from(pid, events, i).0) == signals_from(events, i),
    decreases events.len() - i,
{
    if i < events.len() {
        lemma_session_from(pid, events, i + 1);
        let later = session_from(pid, events, i + 1).0;
        match step_of(pid, events[i]) {
            StepView::Exit(_) => {},
            StepView::Deliver(output) => {
                let all = session_from(pid, events, i).0;
                assert(all.skip(1) =~= later);
            },
        }
    }
}

/// A session handles its events in order: each event before the first
/// exit event gives one write, the one that `step_of` names, and the
/// exit event gives the exit code. Without an exit event every event
/// gives its write and there is no exit code.
pub proof fn lemma_session(pid: i32, events: Seq<InputView>)
    ensures
        session(pid, events).0.len() <= events.len(),
        forall|k: int|
            0 <= k < session(pid, events).0.len() ==> step_of(pid, events[k])
                == StepView::Deliver(#[trigger] session(pid, events).0[k]),
        session(pid, events).0.len() < events.len() ==> events[session(
            pid,
            events,
        ).0.len() as int] is Exit && session(pid, events).1 == Some(
            events[session(pid, events).0.len() as int]->Exit_0,
        ),
        session(pid, events).0.len() == events.len() ==> session(pid, events).1 is None,
{
    lemma_session_from(pid, events, 0);
}

/// A session opens one connection of its own for each signal that it
/// handles and for nothing else, and writes to it the nine bytes of the
/// signal's frame: the tag, the process id, the signal's number.
pub proof fn lemma_one_connection_per_signal(pid: i32, events: Seq<InputView>)
    ensures
        fresh_connections(session(pid, events).0) == signals_from(events, 0),
        forall|k: int|
            0 <= k < session(pid, events).0.len() ==> ((#[trigger] session(
                pid,
                events,
            ).0[k]).sink == Sink::FreshConnection <==> events[k] is Signal),
        forall|k: int|
            0 <= k < session(pid, events).0.len() && events[k] is Signal ==> {
                let bytes = (#[trigger] session(pid, events).0[k]).bytes;
                &&& bytes == signal_frame_bytes(pid, events[k]->Signal_0)
                &&& bytes.len() == 9
                &&& bytes[0] == TAG_SIGNAL
                &&& bytes.subrange(1, 5) == be_bytes(pid as int)
                &&& bytes.subrange(5, 9) == be_bytes(events[k]->Signal_0 as int)
            },
{
    lemma_session_from(pid, events, 0);
}

/// The frame that asks the daemon to deliver signal `signal` to the process
/// `pid`.
pub fn signal_frame(pid: i32, signal: i32) -> (frame: Vec<u8>)
    ensures
        frame@ == signal_frame_bytes(pid, signal),
        frame@.len() == 9,
{
    let mut data: Vec<u8> = Vec::new();
    let mut pid_bytes: Vec<u8> = encode_i32(pid);
    let mut sig_bytes: Vec<u8> = encode_i32(signal);
    data.push(TAG_SIGNAL);
    data.append(&mut pid_bytes);
    data.append(&mut sig_bytes);
    data
}

/// What the dispatcher does with `event` in the session of process `pid`:
/// input goes to the daemon, a signal goes as a signal frame to a connection
/// of its own, the remote process's output goes to the launcher's own, and
/// an exit event ends the session.
pub fn dispatch(pid: i32, event: Input) -> (step: Step)
    ensures
        step@ == step_of(pid, event@),
{
    match event {
        Input::Exit(code) => Step::Exit(code),
        Input::StdIn(bytes) => Step::Deliver(Output { sink: Sink::Daemon, bytes }),
        Input::Signal(signal) => Step::Deliver(
            Output { sink: Sink::FreshConnection, bytes: signal_frame(pid, signal) },
        ),
        Input::StdOut(bytes) => Step::Deliver(Output { sink: Sink::StdOut, bytes }),
        Input::StdErr(bytes) => Step::Deliver(Output { sink: Sink::StdErr, bytes }),
    }
}

/// A copy of `event`.
fn copy_of(event: &Input) -> (copy: Input)
    ensures
        copy@ == event@,
{
    match event {
        Input::Exit(code) => Input::Exit(*code),
        Input::Signal(signal) => Input::Signal(*signal),
        Input::StdIn(bytes) => Input::StdIn(slice_to_vec(bytes.as_slice())),
        Input::StdOut(bytes) => Input::StdOut(slice_to_vec(bytes.as_slice())),
        Input::StdErr(bytes) => Input::StdErr(slice_to_vec(bytes.as_slice())),
    }
}

/// Runs a session of process `pid` over `events`, taken in order. Gives the
/// writes that it makes, in order, and the exit code of the first exit
/// event, at which it stops; without an exit event it handles every event
/// and gives no exit code.
pub fn input_handler(pid: i32, events: &[Input]) -> (r: (Vec<Output>, Option<i32>))
    ensures
        (r.0.deep_view(), r.1) == session(pid, events.deep_view()),
{
    let mut outputs: Vec<Output> = Vec::new();
    let n: usize = events.len();
    let mut i: usize = 0;
    let ghost all = events.deep_view();
    while i < n
        invariant
            i <= n,
            n == events@.len(),
            all == events.deep_view(),
            session_from(pid, all, 0) == (
                outputs.deep_view() + session_from(pid, all, i as int).0,
                session_from(pid, all, i as int).1,
            ),
        decreases n - i,
    {
        match dispatch(pid, copy_of(&events[i])) {
            Step::Exit(code) => {
                return (outputs, Some(code));
            },
            Step::Deliver(output) => {
                outputs.push(output);
            },
        }
        i += 1;
    }
    (outputs, None)
}

/// The exit code of the launcher after a session: the code of the exit
/// event where there was one, 1 where the session failed before.
pub fn exit_code(outcome: Option<i32>) -> (code: i32)
    ensures
        code == match outcome {
            Some(c) => c,
            None => 1,
        },
{
    match outcome {
        Some(c) => c,
        None => 1,
    }
}

} // verus!
