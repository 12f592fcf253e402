//! The wire protocol codec and its error taxonomy.
//!
//! A frame is a 4-byte big-endian length (counting the 4-byte tag plus the
//! payload), a 4-byte ASCII tag, and a UTF-8 payload. Exactly one logical
//! message travels per frame, and the fixed 9000-byte buffer bounds the frame
//! size: a declared length that does not fit is a hard error.

use vstd::prelude::*;
use vstd::utf8::*;
use crate::strutil::{parsed_i32, parse_i32_bytes, join_chars};
use crate::os_string_support::join_os_string;

verus! {

/// The size of the transfer buffer, and so the hard cap on a frame.
pub const BUFFER_SIZE: usize = 9000;

/// Everything that can go wrong on the channel: protocol errors (malformed
/// frames) and transport errors (connection setup, timeouts, broken reads and
/// writes). Protocol errors keep the offending value for diagnostics.
#[derive(Clone, PartialEq, Eq, Debug)]
pub enum CommsError {
    /// The declared frame length does not describe a frame that fits.
    SizeParameterInvalid,
    /// The 4-byte message tag is not valid UTF-8.
    MessageIdNotValidUTF8,
    /// The payload is not valid UTF-8.
    MessageContentsNotValidUTF8,
    /// An `EXIT` payload that does not parse as an integer, kept verbatim.
    ExitCodeStringNotParsable(String),
    /// A well-formed frame with a tag this protocol does not know.
    UnknownMessageId(String),
    /// The peer closed the connection cleanly mid-read.
    ConnectionClosedEof,
    /// The connection was aborted: the peer probably crashed.
    ConenctionClosedAborted,
    /// An I/O failure while waiting for the peer to connect.
    WaitOnConnectionIoError,
    /// An I/O failure while reading a message.
    ReadLvMessageError,
    /// An I/O failure while writing a message.
    WriteLvMessageError,
    /// The peer did not connect within the allowed time.
    WaitOnConnectionTimeOut,
    /// The accepted connection could not be configured.
    ErrorCreatingConnection,
    /// The listening socket could not be created.
    ErrorCreatingListener,
}

/// All messages the child application can send to the host.
#[derive(Clone, PartialEq, Eq, Debug)]
pub enum MessageFromLV {
    /// Exit with the exit code provided.
    EXIT(i32),
    /// Text to copy to standard output.
    OUTP(String),
    /// Text to copy to standard error.
    SERR(String),
}

/// All messages the host sends to the child application.
#[derive(Clone, PartialEq, Eq, Debug)]
pub enum MessageToLV {
    /// The command-line arguments, joined with tabs on the wire.
    ARGS(Vec<String>),
    /// The host's current working directory.
    CCWD(String),
}

/// The tag bytes `EXIT`.
pub open spec fn exit_tag() -> Seq<u8> {
    seq![69u8, 88u8, 73u8, 84u8]
}

/// The tag bytes `OUTP`.
pub open spec fn outp_tag() -> Seq<u8> {
    seq![79u8, 85u8, 84u8, 80u8]
}

/// The tag bytes `SERR`.
pub open spec fn serr_tag() -> Seq<u8> {
    seq![83u8, 69u8, 82u8, 82u8]
}

/// The tag bytes `ARGS`.
pub open spec fn args_tag() -> Seq<u8> {
    seq![65u8, 82u8, 71u8, 83u8]
}

/// The tag bytes `CCWD`.
pub open spec fn ccwd_tag() -> Seq<u8> {
    seq![67u8, 67u8, 87u8, 68u8]
}

/// The length field at the head of a buffer: 4 bytes, big-endian.
pub open spec fn frame_len(b: Seq<u8>) -> int {
    b[0] * 0x1000000 + b[1] * 0x10000 + b[2] * 0x100 + b[3]
}

/// What decoding a full receive buffer must produce: the frame is sized and
/// split as the framing rules say, and each outcome, message or error, is
/// pinned to the bytes.
pub open spec fn decode_result_matches(b: Seq<u8>, r: Result<MessageFromLV, CommsError>) -> bool {
    let len = frame_len(b);
    if !(4 <= len && len + 4 <= b.len()) {
        r == Err::<MessageFromLV, CommsError>(CommsError::SizeParameterInvalid)
    } else {
        let tag = b.subrange(4, 8);
        let payload = b.subrange(8, 4 + len);
        if !valid_utf8(tag) {
            r == Err::<MessageFromLV, CommsError>(CommsError::MessageIdNotValidUTF8)
        } else if !valid_utf8(payload) {
            r == Err::<MessageFromLV, CommsError>(CommsError::MessageContentsNotValidUTF8)
        } else if tag == exit_tag() {
            match parsed_i32(payload) {
                Some(v) => r == Ok::<MessageFromLV, CommsError>(MessageFromLV::EXIT(v as i32)),
                None => r matches Err(CommsError::ExitCodeStringNotParsable(s)) && s@ == decode_utf8(
                    payload,
                ),
            }
        } else if tag == outp_tag() {
            r matches Ok(MessageFromLV::OUTP(s)) && s@ == decode_utf8(payload)
        } else if tag == serr_tag() {
            r matches Ok(MessageFromLV::SERR(s)) && s@ == decode_utf8(payload)
        } else {
            r matches Err(CommsError::UnknownMessageId(t)) && t@ == decode_utf8(tag)
        }
    }
}

/// The characters an outbound message spells on the wire: arguments joined
/// with tabs, or the working-directory path as given.
pub open spec fn outbound_chars(m: MessageToLV) -> Seq<char> {
    match m {
        MessageToLV::ARGS(args) => join_chars(args.deep_view(), seq!['\t']),
        MessageToLV::CCWD(path) => path@,
    }
}

/// The tag bytes of an outbound message.
pub open spec fn outbound_tag(m: MessageToLV) -> Seq<u8> {
    match m {
        MessageToLV::ARGS(_) => args_tag(),
        MessageToLV::CCWD(_) => ccwd_tag(),
    }
}

/// The payload bytes of an outbound message: its characters in UTF-8.
pub open spec fn outbound_payload(m: MessageToLV) -> Seq<u8> {
    encode_utf8(outbound_chars(m))
}

/// A number as 4 big-endian bytes.
pub open spec fn be_bytes4(n: int) -> Seq<u8> {
    seq![
        ((n / 0x1000000) % 256) as u8,
        ((n / 0x10000) % 256) as u8,
        ((n / 0x100) % 256) as u8,
        (n % 256) as u8,
    ]
}

/// The full frame an outbound message sends: length, tag, payload.
pub open spec fn outbound_frame(m: MessageToLV) -> Seq<u8> {
    be_bytes4(outbound_payload(m).len() as int + 4) + outbound_tag(m) + outbound_payload(m)
}

/// Relies on `core::str::from_utf8`: it accepts exactly the valid UTF-8 byte
/// sequences and returns the text they decode to.
#[verifier::external_body]
fn bytes_as_str(b: &[u8]) -> (r: Option<&str>)
    ensures
        match r {
            Some(s) => valid_utf8(b@) && s@ == decode_utf8(b@),
            None => !valid_utf8(b@),
        },
{
    core::str::from_utf8(b).ok()
}

impl MessageFromLV {
    /// Decode the message held in a full receive buffer.
    pub fn from_buffer(buffer: &Vec<u8>) -> (r: Result<MessageFromLV, CommsError>)
        requires
            buffer@.len() == BUFFER_SIZE,
        ensures
            decode_result_matches(buffer@, r),
    {
        let b0 = buffer[0];
        let b1 = buffer[1];
        let b2 = buffer[2];
        let b3 = buffer[3];
        let len_val: u32 = (b0 as u32) * 0x1000000 + (b1 as u32) * 0x10000 + (b2 as u32) * 0x100
            + (b3 as u32);
        assert(len_val == frame_len(buffer@));
        if len_val < 4 || len_val > (BUFFER_SIZE - 4) as u32 {
            return Err(CommsError::SizeParameterInvalid);
        }
        let len = len_val as usize;
        let tag: &[u8] = &buffer.as_slice()[4..8];
        let payload: &[u8] = &buffer.as_slice()[8..4 + len];
        let tag_str = match bytes_as_str(tag) {
            Some(s) => s,
            None => {
                return Err(CommsError::MessageIdNotValidUTF8);
            },
        };
        let contents = match bytes_as_str(payload) {
            Some(s) => s,
            None => {
                return Err(CommsError::MessageContentsNotValidUTF8);
            },
        };
        if tag[0] == 69 && tag[1] == 88 && tag[2] == 73 && tag[3] == 84 {
            assert(tag@ =~= exit_tag());
            match parse_i32_bytes(payload) {
                Some(code) => Ok(MessageFromLV::EXIT(code)),
                None => Err(CommsError::ExitCodeStringNotParsable(contents.to_owned())),
            }
        } else if tag[0] == 79 && tag[1] == 85 && tag[2] == 84 && tag[3] == 80 {
            assert(tag@ =~= outp_tag());
            Ok(MessageFromLV::OUTP(contents.to_owned()))
        } else if tag[0] == 83 && tag[1] == 69 && tag[2] == 82 && tag[3] == 82 {
            assert(tag@ =~= serr_tag());
            Ok(MessageFromLV::SERR(contents.to_owned()))
        } else {
            assert(tag@ != exit_tag() && tag@ != outp_tag() && tag@ != serr_tag());
            Err(CommsError::UnknownMessageId(tag_str.to_owned()))
        }
    }
}

/// The outbound handshake, in its fixed order: the invocation arguments
/// first, then the working directory. No further outbound messages follow
/// in a session.
pub fn startup_messages(program_args: Vec<String>, cwd: String) -> (r: Vec<MessageToLV>)
    ensures
        r@.len() == 2,
        r@[0] == MessageToLV::ARGS(program_args),
        r@[1] == MessageToLV::CCWD(cwd),
{
    let mut messages: Vec<MessageToLV> = Vec::new();
    messages.push(MessageToLV::ARGS(program_args));
    messages.push(MessageToLV::CCWD(cwd));
    messages
}

/// Why a read failed, as the transport reports it.
#[derive(Copy, Clone, Debug, PartialEq, Eq, Structural)]
pub enum ReadErrorKind {
    /// The stream ended mid-message.
    UnexpectedEof,
    /// The connection was torn down.
    ConnectionAborted,
    /// Any other read failure.
    Other,
}

/// Diagnose a failed read: an unexpected end of stream means the peer most
/// likely closed, an abort that it crashed; everything else is a plain read
/// failure.
pub fn wrap_read_error(kind: ReadErrorKind) -> (r: CommsError)
    ensures
        r == match kind {
            ReadErrorKind::UnexpectedEof => CommsError::ConnectionClosedEof,
            ReadErrorKind::ConnectionAborted => CommsError::ConenctionClosedAborted,
            ReadErrorKind::Other => CommsError::ReadLvMessageError,
        },
{
    match kind {
        ReadErrorKind::UnexpectedEof => CommsError::ConnectionClosedEof,
        ReadErrorKind::ConnectionAborted => CommsError::ConenctionClosedAborted,
        ReadErrorKind::Other => CommsError::ReadLvMessageError,
    }
}

/// One poll of the non-blocking listener, as the accept loop sees it.
#[derive(Copy, Clone, Debug, PartialEq, Eq, Structural)]
pub enum PollOutcome {
    /// A client connected.
    Connected,
    /// No client yet; not a failure.
    WouldBlock,
    /// The listener failed.
    Failed,
}

/// What the accept loop does after one poll.
#[derive(Copy, Clone, Debug, PartialEq, Eq, Structural)]
pub enum AcceptStep {
    /// Hand the new connection on.
    Accept,
    /// Sleep one interval, then poll again.
    RetryAfterSleep,
    /// Give up: the timeout is spent.
    TimeOut,
    /// Give up: the listener failed.
    Fail,
}

/// How many 10-millisecond wait intervals fit in the timeout; the accept
/// loop retries at most that often.
pub open spec fn accept_iterations(timeout_ms: int) -> int {
    timeout_ms / 10
}

/// The retry budget for an accept with this timeout.
pub fn plan_accept(timeout_ms: u64) -> (r: u64)
    ensures
        r == accept_iterations(timeout_ms as int),
{
    timeout_ms / 10
}

/// Decide one accept-loop iteration: a connection is taken at once, a
/// failure ends the wait at once, and a would-block poll either spends one
/// more interval or, with the budget gone, times out.
pub fn accept_step(outcome: PollOutcome, count: u64, iterations: u64) -> (r: (AcceptStep, u64))
    requires
        count < u64::MAX,
    ensures
        match outcome {
            PollOutcome::Connected => r == (AcceptStep::Accept, count),
            PollOutcome::WouldBlock => r.1 == count + 1 && r.0 == (if count + 1 < iterations {
                AcceptStep::RetryAfterSleep
            } else {
                AcceptStep::TimeOut
            }),
            PollOutcome::Failed => r == (AcceptStep::Fail, count),
        },
{
    match outcome {
        PollOutcome::Connected => (AcceptStep::Accept, count),
        PollOutcome::WouldBlock => {
            let next = count + 1;
            if next < iterations {
                (AcceptStep::RetryAfterSleep, next)
            } else {
                (AcceptStep::TimeOut, next)
            }
        },
        PollOutcome::Failed => (AcceptStep::Fail, count),
    }
}

/// What an accept wait yields over a given run of poll outcomes: success,
/// a distinct timeout error, or an I/O error — or nothing decided yet when
/// the polls run out first.
pub open spec fn accept_outcome(polls: Seq<PollOutcome>, count: int, iterations: int) -> Option<
    Result<(), CommsError>,
>
    decreases polls.len(),
{
    if polls.len() == 0 {
        None
    } else {
        match polls[0] {
            PollOutcome::Connected => Some(Ok(())),
            PollOutcome::Failed => Some(Err(CommsError::WaitOnConnectionIoError)),
            PollOutcome::WouldBlock => if count + 1 < iterations {
                accept_outcome(polls.skip(1), count + 1, iterations)
            } else {
                Some(Err(CommsError::WaitOnConnectionTimeOut))
            },
        }
    }
}

/// Replay an accept wait over recorded poll outcomes.
pub fn wait_on_polls(polls: &Vec<PollOutcome>, timeout_ms: u64) -> (r: Option<
    Result<(), CommsError>,
>)
    ensures
        r == accept_outcome(polls@, 0, accept_iterations(timeout_ms as int)),
{
    let iterations = plan_accept(timeout_ms);
    let mut count: u64 = 0;
    let mut i: usize = 0;
    assert(polls@.skip(0) =~= polls@);
    while i < polls.len()
        invariant
            0 <= i <= polls@.len(),
            count <= i,
            i <= u64::MAX,
            iterations == accept_iterations(timeout_ms as int),
            accept_outcome(polls@, 0, iterations as int) == accept_outcome(
                polls@.skip(i as int),
                count as int,
                iterations as int,
            ),
        decreases polls@.len() - i,
    {
        proof {
            assert(polls@.skip(i as int)[0] == polls@[i as int]);
            assert(polls@.skip(i as int).skip(1) =~= polls@.skip(i + 1));
        }
        let (step, next_count) = accept_step(polls[i], count, iterations);
        match step {
            AcceptStep::Accept => {
                return Some(Ok(()));
            },
            AcceptStep::Fail => {
                return Some(Err(CommsError::WaitOnConnectionIoError));
            },
            AcceptStep::TimeOut => {
                return Some(Err(CommsError::WaitOnConnectionTimeOut));
            },
            AcceptStep::RetryAfterSleep => {
                count = next_count;
                i += 1;
            },
        }
    }
    None
}

/// With a timeout shorter than one wait interval and no client connecting,
/// the first poll already decides: the wait ends in the timeout error
/// without a single sleep, so it can never block.
pub proof fn lemma_accept_zero_timeout(polls: Seq<PollOutcome>, timeout_ms: int)
    requires
        0 <= timeout_ms < 10,
        polls.len() > 0,
        polls[0] == PollOutcome::WouldBlock,
    ensures
        accept_outcome(polls, 0, accept_iterations(timeout_ms)) == Some(
            Err::<(), CommsError>(CommsError::WaitOnConnectionTimeOut),
        ),
{
}

impl MessageToLV {
    /// Write the message's frame into the front of the transfer buffer and
    /// return how many bytes are to be sent. The rest of the buffer keeps
    /// whatever it held.
    pub fn to_buffer(&self, buffer: &mut Vec<u8>) -> (size: usize)
        requires
            old(buffer)@.len() == BUFFER_SIZE,
            outbound_payload(*self).len() + 8 <= BUFFER_SIZE,
        ensures
            size == outbound_payload(*self).len() + 8,
            final(buffer)@.len() == BUFFER_SIZE,
            final(buffer)@.subrange(0, size as int) == outbound_frame(*self),
            final(buffer)@.subrange(size as int, BUFFER_SIZE as int) == old(buffer)@.subrange(
                size as int,
                BUFFER_SIZE as int,
            ),
    {
        let contents: String = match self {
            MessageToLV::ARGS(args) => {
                let joined = join_os_string(args, "\t");
                proof {
                    reveal_strlit("\t");
                    assert("\t"@ =~= seq!['\t']);
                }
                joined
            },
            MessageToLV::CCWD(path) => path.clone(),
        };
        assert(contents@ == outbound_chars(*self));
        let payload: &[u8] = contents.as_str().as_bytes();
        assert(payload@ == outbound_payload(*self));
        let plen = payload.len();
        let length: usize = plen + 4;
        buffer[0] = 0;
        buffer[1] = 0;
        buffer[2] = (length / 256) as u8;
        buffer[3] = (length % 256) as u8;
        assert(buffer@.subrange(0, 4) =~= be_bytes4(length as int)) by {
            assert(length < 0x10000);
            assert(length as int / 0x1000000 == 0);
            assert(length as int / 0x10000 == 0);
            assert(length as int / 0x100 < 256);
        }
        match self {
            MessageToLV::ARGS(_) => {
                buffer[4] = 65;
                buffer[5] = 82;
                buffer[6] = 71;
                buffer[7] = 83;
            },
            MessageToLV::CCWD(_) => {
                buffer[4] = 67;
                buffer[5] = 67;
                buffer[6] = 87;
                buffer[7] = 68;
            },
        }
        assert(buffer@.subrange(4, 8) =~= outbound_tag(*self));
        let ghost header: Seq<u8> = buffer@.subrange(0, 8);
        let mut i: usize = 0;
        while i < plen
            invariant
                i <= plen,
                plen + 8 <= BUFFER_SIZE,
                buffer@.len() == BUFFER_SIZE,
                payload@.len() == plen,
                payload@ == outbound_payload(*self),
                buffer@.subrange(0, 8) == header,
                forall|k: int| 8 <= k < 8 + i ==> buffer@[k] == payload@[k - 8],
                forall|k: int|
                    8 + plen <= k < BUFFER_SIZE ==> buffer@[k] == #[trigger] old(buffer)@[k],
            decreases plen - i,
        {
            buffer[8 + i] = payload[i];
            assert(buffer@.subrange(0, 8) =~= header);
            i += 1;
        }
        let size = plen + 8;
        proof {
            assert(buffer@.subrange(0, size as int) =~= be_bytes4(length as int) + outbound_tag(
                *self,
            ) + payload@);
            assert(buffer@.subrange(size as int, BUFFER_SIZE as int) =~= old(buffer)@.subrange(
                size as int,
                BUFFER_SIZE as int,
            ));
        }
        size
    }
}

} // verus!
