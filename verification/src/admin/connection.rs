//! Messages on the admin socket: a length prefix, then that many bytes.

use tokio_util::codec::{Decoder, Encoder};
use vstd::prelude::*;

verus! {

/// The longest message, in bytes: 8 MiB.
pub const MAX_MESSAGE_LEN: usize = 8388608;

/// The four bytes that come before a message of `n` bytes, the least significant first.
pub open spec fn length_prefix(n: nat) -> Seq<u8> {
    seq![
        (n % 256) as u8,
        (n / 256 % 256) as u8,
        (n / 65536 % 256) as u8,
        (n / 16777216 % 256) as u8,
    ]
}

/// The length that the first four bytes announce.
pub open spec fn announced_length(bytes: Seq<u8>) -> nat {
    (bytes[0] + 256 * bytes[1] + 65536 * bytes[2] + 16777216 * bytes[3]) as nat
}

/// A message with its length prefix.
pub open spec fn frame(message: Seq<u8>) -> Seq<u8> {
    length_prefix(message.len()) + message
}

/// What the bytes received so far hold.
pub enum Received {
    /// Not yet a whole message.
    Incomplete,

    /// A message that is announced to be longer than allowed.
    TooLong,

    /// A message, and the bytes after it.
    Message {
        /// The message, without its length prefix.
        message: Seq<u8>,

        /// What follows the message.
        rest: Seq<u8>,
    },
}

/// What `bytes` hold.
pub open spec fn received(bytes: Seq<u8>) -> Received {
    if bytes.len() < 4 {
        Received::Incomplete
    } else if announced_length(bytes) > MAX_MESSAGE_LEN {
        Received::TooLong
    } else if bytes.len() < 4 + announced_length(bytes) {
        Received::Incomplete
    } else {
        let end = 4 + announced_length(bytes);
        Received::Message {
            message: bytes.subrange(4, end as int),
            rest: bytes.subrange(end as int, bytes.len() as int),
        }
    }
}

/// Put the length prefix before a message.
///
/// Calls `LengthDelimitedCodec::encode` of a little-endian codec that is otherwise left at its
/// defaults: a length field of four bytes and messages of at most 8 MiB.
#[verifier::external_body]
fn encode_frame(message: &[u8]) -> (res: Result<Vec<u8>, std::io::Error>)
    ensures
        res is Ok <==> message@.len() <= MAX_MESSAGE_LEN,
        res matches Ok(bytes) ==> bytes@ == frame(message@),
{
    let mut codec = tokio_util::codec::LengthDelimitedCodec::builder().little_endian().new_codec();
    let mut bytes = bytes::BytesMut::new();
    codec.encode(message, &mut bytes)?;
    Ok(bytes.to_vec())
}

/// Take the first message off `bytes`, and give what follows it too.
///
/// Calls `LengthDelimitedCodec::decode` of a fresh little-endian codec that is otherwise left at
/// its defaults. It asks for more bytes until the message is whole, and fails where the length
/// prefix announces more than 8 MiB.
#[verifier::external_body]
fn decode_frame(bytes: &[u8]) -> (res: Result<Option<(Vec<u8>, Vec<u8>)>, std::io::Error>)
    ensures
        match received(bytes@) {
            Received::Incomplete => res matches Ok(None),
            Received::TooLong => res is Err,
            Received::Message { message, rest } => res matches Ok(Some((first, others)))
                && first@ == message && others@ == rest,
        },
{
    let mut codec = tokio_util::codec::LengthDelimitedCodec::builder().little_endian().new_codec();
    let mut bytes = bytes::BytesMut::from(bytes);
    let message = codec.decode(&mut bytes)?;
    Ok(message.map(|message| (message.to_vec(), bytes.to_vec())))
}

/// Why a message that was waited for did not come, after the other side closed the socket.
#[derive(Debug, Clone, Copy, PartialEq, Eq, Structural)]
pub enum ClosedError {
    /// The socket was closed before a message began.
    Unexpectedly,

    /// The socket was closed in the middle of a message.
    BytesRemaining,
}

impl ClosedError {
    /// Describe the error.
    pub fn message(self) -> (res: String)
        ensures
            res@ == match self {
                ClosedError::Unexpectedly => "local socket closed unexpectedly"@,
                ClosedError::BytesRemaining => "bytes remaining on stream"@,
            },
    {
        match self {
            ClosedError::Unexpectedly => "local socket closed unexpectedly".to_owned(),
            ClosedError::BytesRemaining => "bytes remaining on stream".to_owned(),
        }
    }
}

/// One side of a connection over the admin socket: the bytes that were received and are not yet
/// part of a message that was read.
#[derive(Debug)]
pub struct Connection {
    pending: Vec<u8>,
}

impl View for Connection {
    type V = Seq<u8>;

    closed spec fn view(&self) -> Seq<u8> {
        self.pending@
    }
}

impl Connection {
    /// A connection on which nothing was received yet.
    pub fn new() -> (res: Connection)
        ensures
            res@ == Seq::<u8>::empty(),
    {
        Connection { pending: Vec::new() }
    }

    /// Take in bytes from the socket.
    pub fn receive(&mut self, bytes: &[u8])
        ensures
            final(self)@ == old(self)@ + bytes@,
    {
        self.pending.extend_from_slice(bytes);
    }

    /// Read the next message, if it is whole. It is an error if it is longer than 8 MiB.
    pub fn read(&mut self) -> (res: Result<Option<Vec<u8>>, std::io::Error>)
        ensures
            match received(old(self)@) {
                Received::Incomplete => res matches Ok(None) && final(self)@ == old(self)@,
                Received::TooLong => res is Err && final(self)@ == old(self)@,
                Received::Message { message, rest } => {
                    &&& res matches Ok(Some(read)) && read@ == message
                    &&& final(self)@ == rest
                },
            },
    {
        match decode_frame(self.pending.as_slice()) {
            Ok(Some((message, rest))) => {
                self.pending = rest;
                Ok(Some(message))
            },
            Ok(None) => Ok(None),
            Err(error) => Err(error),
        }
    }

    /// The bytes to send for a message. It is an error if it is longer than 8 MiB.
    pub fn write(&self, message: &[u8]) -> (res: Result<Vec<u8>, std::io::Error>)
        ensures
            res is Ok <==> message@.len() <= MAX_MESSAGE_LEN,
            res matches Ok(bytes) ==> bytes@ == frame(message@),
    {
        encode_frame(message)
    }

    /// Why no message comes after the other side closed the socket. A length prefix alone does not
    /// count as the beginning of a message.
    pub fn closed(&self) -> (res: ClosedError)
        ensures
            res == if self@.len() == 0 || self@.len() == 4 {
                ClosedError::Unexpectedly
            } else {
                ClosedError::BytesRemaining
            },
    {
        let n = self.pending.len();
        if n == 0 || n == 4 {
            ClosedError::Unexpectedly
        } else {
            ClosedError::BytesRemaining
        }
    }
}

/// What is written is what is read: the frame of a message of allowed length, whatever follows it,
/// holds that message.
pub proof fn read_gives_back_what_was_written(message: Seq<u8>, rest: Seq<u8>)
    requires
        message.len() <= MAX_MESSAGE_LEN,
    ensures
        received(frame(message) + rest) == (Received::Message { message, rest }),
{
    let n = message.len();
    let bytes = frame(message) + rest;
    assert(announced_length(bytes) == n) by {
        assert(bytes[0] == n % 256);
        assert(bytes[1] == n / 256 % 256);
        assert(bytes[2] == n / 65536 % 256);
        assert(bytes[3] == n / 16777216 % 256);
    }
    assert(bytes.subrange(4, 4 + n as int) =~= message);
    assert(bytes.subrange(4 + n as int, bytes.len() as int) =~= rest);
}

/// Bytes that arrive later do not change what was already whole, or already too long.
pub proof fn later_bytes_change_nothing_before_them(bytes: Seq<u8>, later: Seq<u8>)
    ensures
        match received(bytes) {
            Received::Incomplete => true,
            Received::TooLong => received(bytes + later) is TooLong,
            Received::Message { message, rest } => received(bytes + later) == (Received::Message {
                message,
                rest: rest + later,
            }),
        },
{
    if bytes.len() >= 4 {
        let all = bytes + later;
        assert(announced_length(all) == announced_length(bytes));
        let end = 4 + announced_length(bytes) as int;
        if bytes.len() >= end {
            assert(all.subrange(4, end) =~= bytes.subrange(4, end));
            assert(all.subrange(end, all.len() as int) =~= bytes.subrange(end, bytes.len() as int)
                + later);
        }
    }
}

/// The frames of `messages`, one after the other.
pub open spec fn frames(messages: Seq<Seq<u8>>) -> Seq<u8>
    decreases messages.len(),
{
    if messages.len() == 0 {
        seq![]
    } else {
        frame(messages.first()) + frames(messages.drop_first())
    }
}

/// All messages that can be read from `bytes`, and what is left then.
pub open spec fn all_received(bytes: Seq<u8>) -> (Seq<Seq<u8>>, Seq<u8>)
    decreases bytes.len(),
{
    match received(bytes) {
        Received::Message { message, rest } if rest.len() < bytes.len() => {
            let (others, left) = all_received(rest);
            (seq![message] + others, left)
        },
        _ => (seq![], bytes),
    }
}

/// It does not matter in how many pieces the bytes arrive: reading what is there, and then the rest
/// with what arrives later, gives what reading all of it at once gives.
pub proof fn pieces_do_not_matter(bytes: Seq<u8>, later: Seq<u8>)
    ensures
        ({
            let (first, left) = all_received(bytes);
            let (second, rest) = all_received(left + later);
            all_received(bytes + later) == (first + second, rest)
        }),
    decreases bytes.len(),
{
    let (first, left) = all_received(bytes);
    let (second, _) = all_received(left + later);
    match received(bytes) {
        Received::Message { message, rest } => {
            later_bytes_change_nothing_before_them(bytes, later);
            pieces_do_not_matter(rest, later);
            let (others, _) = all_received(rest);
            assert(seq![message] + (others + second) =~= first + second);
        },
        _ => {
            assert(first + second =~= second);
        },
    }
}

proof fn lemma_first_is_received(message: Seq<u8>, rest: Seq<u8>)
    requires
        message.len() <= MAX_MESSAGE_LEN,
    ensures
        all_received(frame(message) + rest) == (
            seq![message] + all_received(rest).0,
            all_received(rest).1,
        ),
{
    read_gives_back_what_was_written(message, rest);
    assert((frame(message) + rest).len() == 4 + message.len() + rest.len());
}

/// Any number of messages are read in the order in which they were written, without loss, and up
/// to the first byte of a message that is not whole yet.
#[verifier::rlimit(40)]
pub proof fn messages_are_read_in_order(messages: Seq<Seq<u8>>, left: Seq<u8>)
    requires
        forall|i: int|
            0 <= i < messages.len() ==> (#[trigger] messages[i]).len() <= MAX_MESSAGE_LEN,
        !(received(left) is Message),
    ensures
        all_received(frames(messages) + left) == (messages, left),
    decreases messages.len(),
{
    if messages.len() == 0 {
        assert(frames(messages) + left =~= left);
        assert(messages =~= seq![]);
    } else {
        let rest = frames(messages.drop_first()) + left;
        messages_are_read_in_order(messages.drop_first(), left);
        lemma_first_is_received(messages.first(), rest);
        assert(frames(messages) + left =~= frame(messages.first()) + rest) by {
            let first = frame(messages.first());
            assert(frames(messages) == first + frames(messages.drop_first()));
        }
        assert(seq![messages.first()] + messages.drop_first() =~= messages);
    }
}

/// The least significant byte of the length comes first: a message of less than 256 bytes is preceded
/// by its length and three zeros.
pub proof fn short_message_is_preceded_by_its_length(message: Seq<u8>)
    requires
        message.len() < 256,
    ensures
        frame(message) == seq![message.len() as u8, 0, 0, 0] + message,
{
    assert(length_prefix(message.len()) =~= seq![message.len() as u8, 0, 0, 0]);
}

/// The four bytes before a message stand for its length, and no more than 8 MiB may be announced.
pub proof fn frame_announces_its_length(message: Seq<u8>, bytes: Seq<u8>)
    requires
        message.len() <= 8 * 1024 * 1024,
        bytes.len() >= 4,
    ensures
        frame(message).len() == 4 + message.len(),
        frame(message).skip(4) == message,
        received(bytes) is TooLong <==> bytes[0] + 256 * bytes[1] + 256 * 256 * bytes[2] + 256 * 256
            * 256 * bytes[3] > 8 * 1024 * 1024,
{
    assert(frame(message).skip(4) =~= message);
}

/// As long as a byte of a message is missing, nothing is read.
pub proof fn message_is_read_only_when_it_is_whole(message: Seq<u8>, n: int)
    requires
        message.len() <= MAX_MESSAGE_LEN,
        0 <= n < frame(message).len(),
    ensures
        received(frame(message).take(n)) is Incomplete,
{
    let part = frame(message).take(n);
    if n >= 4 {
        let whole = frame(message) + Seq::<u8>::empty();
        read_gives_back_what_was_written(message, Seq::empty());
        assert(whole =~= frame(message));
        assert(announced_length(part) == announced_length(whole));
        assert(announced_length(whole) == message.len()) by {
            let k = message.len();
            assert(whole[0] == k % 256);
            assert(whole[1] == k / 256 % 256);
            assert(whole[2] == k / 65536 % 256);
            assert(whole[3] == k / 16777216 % 256);
        }
    }
}

} // verus!
