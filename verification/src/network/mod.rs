//! The wire format: one text payload per frame, a four-byte big-endian
//! length followed by the payload's UTF-8 bytes.
use vstd::prelude::*;
use vstd::slice::*;
use vstd::string::*;
use vstd::utf8::*;

pub mod handshake;
pub mod relay;
pub mod tcp_command;
pub mod tcp_entity;

verus! {

/// The port on which the coordinator listens.
pub const HOME_PORT: u32 = 53_000;

/// The longest payload that a node reads, in bytes. A frame that announces
/// more is refused before anything is set aside for it.
pub const MAX_PAYLOAD_LEN: u32 = 0x100_0000;

/// What can go wrong between two nodes.
#[derive(Debug, Clone, Copy, PartialEq, Eq, Structural)]
pub enum NetworkError {
    /// The listening address could not be bound.
    Bind,
    /// One inbound connection attempt failed.
    Accept,
    /// The connection to the coordinator could not be opened, or failed
    /// while the registration was sent or its reply was awaited.
    Connect,
    /// The stream ended, or failed, in the middle of a frame, or the payload
    /// is too long for a frame.
    FrameIo,
    /// A payload is not valid UTF-8.
    Decode,
    /// A payload does not follow the envelope grammar.
    Parse,
    /// The coordinator answered a registration with something other than the acknowledgement.
    RegistrationRejected,
    /// No connection is registered under the destination identity.
    RegistryMiss,
}

/// The four bytes, most significant first, of the low 32 bits of `len`.
pub open spec fn length_prefix_of(len: nat) -> Seq<u8> {
    seq![
        (len / 0x100_0000 % 0x100) as u8,
        (len / 0x1_0000 % 0x100) as u8,
        (len / 0x100 % 0x100) as u8,
        (len % 0x100) as u8,
    ]
}

/// The number that four bytes spell, most significant first.
pub open spec fn length_of_prefix(prefix: Seq<u8>) -> nat
    recommends
        prefix.len() == 4,
{
    (prefix[0] * 0x100_0000 + prefix[1] * 0x1_0000 + prefix[2] * 0x100 + prefix[3]) as nat
}

/// The frame that carries `text`.
pub open spec fn frame(text: Seq<char>) -> Seq<u8> {
    length_prefix_of(encode_utf8(text).len()) + encode_utf8(text)
}

/// The number of bytes that the first frame of `bytes` occupies, where `bytes` holds its whole prefix.
pub open spec fn frame_len(bytes: Seq<u8>) -> nat
    recommends
        bytes.len() >= 4,
{
    4 + length_of_prefix(bytes.subrange(0, 4))
}

/// Whether `bytes` begins with a whole frame whose payload is not too long.
pub open spec fn has_frame(bytes: Seq<u8>) -> bool {
    bytes.len() >= 4 && frame_len(bytes) <= 4 + MAX_PAYLOAD_LEN && bytes.len() >= frame_len(bytes)
}

/// The payload bytes of the first frame of `bytes`.
pub open spec fn frame_payload(bytes: Seq<u8>) -> Seq<u8>
    recommends
        has_frame(bytes),
{
    bytes.subrange(4, frame_len(bytes) as int)
}

/// What reading one frame from the front of `bytes` gives: the text, or the reason why there is none.
pub open spec fn frame_text(bytes: Seq<u8>) -> Result<Seq<char>, NetworkError> {
    if !has_frame(bytes) {
        Err(NetworkError::FrameIo)
    } else if !valid_utf8(frame_payload(bytes)) {
        Err(NetworkError::Decode)
    } else {
        Ok(decode_utf8(frame_payload(bytes)))
    }
}

/// The big-endian bytes of the low 32 bits of `len`.
pub fn length_prefix(len: usize) -> (r: [u8; 4])
    ensures
        r@ == length_prefix_of(len as nat),
{
    let r = [
        (len / 0x100_0000 % 0x100) as u8,
        (len / 0x1_0000 % 0x100) as u8,
        (len / 0x100 % 0x100) as u8,
        (len % 0x100) as u8,
    ];
    assert(r@ =~= length_prefix_of(len as nat));
    r
}

/// The payload length that a frame's four prefix bytes announce.
pub fn payload_length(prefix: &[u8; 4]) -> (r: u32)
    ensures
        r == length_of_prefix(prefix@),
{
    let b0: u32 = prefix[0] as u32;
    let b1: u32 = prefix[1] as u32;
    let b2: u32 = prefix[2] as u32;
    let b3: u32 = prefix[3] as u32;
    b0 * 0x100_0000 + b1 * 0x1_0000 + b2 * 0x100 + b3
}

/// The payload length that a frame's four prefix bytes announce, where a
/// node reads a payload of that length; one that is too long is `FrameIo`.
pub fn admitted_payload_length(prefix: &[u8; 4]) -> (r: Result<usize, NetworkError>)
    ensures
        length_of_prefix(prefix@) <= MAX_PAYLOAD_LEN ==> r == Ok::<usize, NetworkError>(
            length_of_prefix(prefix@) as usize,
        ),
        length_of_prefix(prefix@) > MAX_PAYLOAD_LEN ==> r == Err::<usize, NetworkError>(
            NetworkError::FrameIo,
        ),
{
    let n = payload_length(prefix);
    if n <= MAX_PAYLOAD_LEN {
        Ok(n as usize)
    } else {
        Err(NetworkError::FrameIo)
    }
}

/// A prefix spells the length it was made from, as long as that length fits in 32 bits.
pub proof fn lemma_prefix_round_trip(len: nat)
    requires
        len <= u32::MAX,
    ensures
        length_prefix_of(len).len() == 4,
        length_of_prefix(length_prefix_of(len)) == len,
{
}

/// What encoding `text` gives: its frame, or `FrameIo` where its UTF-8
/// bytes are more than `MAX_PAYLOAD_LEN`, which no node would read.
pub open spec fn framed(text: Seq<char>) -> Result<Seq<u8>, NetworkError> {
    if encode_utf8(text).len() <= MAX_PAYLOAD_LEN {
        Ok(frame(text))
    } else {
        Err(NetworkError::FrameIo)
    }
}

/// The outcome of an encoding as plain values.
pub open spec fn framed_view(r: Result<Vec<u8>, NetworkError>) -> Result<Seq<u8>, NetworkError> {
    match r {
        Ok(bytes) => Ok(bytes@),
        Err(e) => Err(e),
    }
}

/// Encodes `text` as one frame. A text whose UTF-8 bytes are more than
/// `MAX_PAYLOAD_LEN` is refused with `FrameIo`.
pub fn encode(text: &str) -> (r: Result<Vec<u8>, NetworkError>)
    ensures
        framed_view(r) == framed(text@),
{
    let mut r: Vec<u8> = Vec::new();
    match send_string(text, &mut r) {
        Ok(_) => Ok(r),
        Err(e) => Err(e),
    }
}

/// Writes `data` as one frame to the end of `writer`. A text whose UTF-8
/// bytes are more than `MAX_PAYLOAD_LEN` is refused with `FrameIo`, and
/// nothing is written.
pub fn send_string(data: &str, writer: &mut Vec<u8>) -> (r: Result<(), NetworkError>)
    ensures
        match framed(data@) {
            Ok(bytes) => r is Ok && final(writer)@ == old(writer)@ + bytes,
            Err(e) => r == Err::<(), NetworkError>(e) && final(writer)@ == old(writer)@,
        },
{
    let payload = data.as_bytes();
    if payload.len() > MAX_PAYLOAD_LEN as usize {
        return Err(NetworkError::FrameIo);
    }
    let prefix = length_prefix(payload.len());
    writer.extend_from_slice(&prefix);
    writer.extend_from_slice(payload);
    assert(writer@ =~= old(writer)@ + frame(data@));
    Ok(())
}

/// `String::from_utf8`: the text that `bytes` spell where they are valid
/// UTF-8, and nothing where they are not.
#[verifier::external_body]
fn text_of_utf8(bytes: Vec<u8>) -> (r: Option<String>)
    ensures
        r is Some <==> valid_utf8(bytes@),
        r is Some ==> r->0@ == decode_utf8(bytes@),
{
    String::from_utf8(bytes).ok()
}

/// Turns the payload of one frame into text.
pub fn decode_payload(payload: Vec<u8>) -> (r: Result<String, NetworkError>)
    ensures
        valid_utf8(payload@) ==> r is Ok && r->Ok_0@ == decode_utf8(payload@),
        !valid_utf8(payload@) ==> r == Err::<String, NetworkError>(NetworkError::Decode),
{
    match text_of_utf8(payload) {
        Some(text) => Ok(text),
        None => Err(NetworkError::Decode),
    }
}

/// Reads one frame from the front of `reader` and returns its text with the
/// bytes that follow the frame.
///
/// A stream that ends before the frame does gives `FrameIo`, and so does a
/// frame that announces more than `MAX_PAYLOAD_LEN` bytes; a whole frame
/// whose payload is not valid UTF-8 gives `Decode`.
pub fn recv_string<'a>(reader: &'a [u8]) -> (r: Result<(String, &'a [u8]), NetworkError>)
    ensures
        match frame_text(reader@) {
            Ok(text) => r is Ok && r->Ok_0.0@ == text && r->Ok_0.1@ == reader@.skip(
                frame_len(reader@) as int,
            ),
            Err(e) => r == Err::<(String, &[u8]), NetworkError>(e),
        },
{
    if reader.len() < 4 {
        return Err(NetworkError::FrameIo);
    }
    let prefix: [u8; 4] = [reader[0], reader[1], reader[2], reader[3]];
    assert(prefix@ =~= reader@.subrange(0, 4));
    let n: usize = match admitted_payload_length(&prefix) {
        Ok(n) => n,
        Err(e) => {
            return Err(e);
        },
    };
    if reader.len() - 4 < n {
        return Err(NetworkError::FrameIo);
    }
    let payload = slice_to_vec(slice_subrange(reader, 4, 4 + n));
    match decode_payload(payload) {
        Ok(text) => Ok((text, slice_subrange(reader, 4 + n, reader.len()))),
        Err(e) => Err(e),
    }
}

/// Decodes the frame at the front of `bytes`.
pub fn decode(bytes: &[u8]) -> (r: Result<String, NetworkError>)
    ensures
        match frame_text(bytes@) {
            Ok(text) => r is Ok && r->Ok_0@ == text,
            Err(e) => r == Err::<String, NetworkError>(e),
        },
{
    match recv_string(bytes) {
        Ok((text, _)) => Ok(text),
        Err(e) => Err(e),
    }
}

/// Decoding undoes encoding: a frame made from `text`, whatever follows it in
/// the stream, reads back as `text` and ends where the frame ends. This holds
/// of every text whose encoding is at most `MAX_PAYLOAD_LEN` bytes long, the
/// empty text included: of every text that `encode` takes.
pub proof fn lemma_decode_encode(text: Seq<char>, rest: Seq<u8>)
    requires
        encode_utf8(text).len() <= MAX_PAYLOAD_LEN,
    ensures
        framed(text) == Ok::<Seq<u8>, NetworkError>(frame(text)),
        frame_text(frame(text) + rest) == Ok::<Seq<char>, NetworkError>(text),
        frame_len(frame(text) + rest) == frame(text).len(),
        (frame(text) + rest).skip(frame(text).len() as int) == rest,
{
    let payload = encode_utf8(text);
    let bytes = frame(text) + rest;
    lemma_prefix_round_trip(payload.len());
    assert(bytes.subrange(0, 4) =~= length_prefix_of(payload.len()));
    assert(frame_payload(bytes) =~= payload);
    encode_utf8_valid_utf8(text);
    encode_utf8_decode_utf8(text);
    assert(bytes.skip(frame(text).len() as int) =~= rest);
}

/// A stream that stops short of its first frame's end gives `FrameIo`,
/// wherever it stops: inside the prefix or inside the payload.
pub proof fn lemma_truncated_frame(text: Seq<char>, cut: int)
    requires
        encode_utf8(text).len() <= u32::MAX,
        0 <= cut < frame(text).len(),
    ensures
        frame_text(frame(text).take(cut)) == Err::<Seq<char>, NetworkError>(NetworkError::FrameIo),
{
    let payload = encode_utf8(text);
    let bytes = frame(text).take(cut);
    lemma_prefix_round_trip(payload.len());
    if cut >= 4 {
        assert(bytes.subrange(0, 4) =~= length_prefix_of(payload.len()));
    }
}

} // verus!
