//! The wire format: every message is a tagged union in a fixed field order.
//!
//! Integers are little endian. A variant is named by its index, in 32 bits.
//! A text is its length in bytes, in 64 bits, followed by its UTF-8 bytes; a
//! block of bytes is its length, in 64 bits, followed by the bytes. A size
//! takes 64 bits. An optional value is one byte, 0 or 1, followed by the
//! value where the byte is 1.

use crate::message::{Chunk, ChunkView, NetMessage, NetMessageView};
use vstd::bytes::*;
use vstd::prelude::*;
use vstd::slice::*;
use vstd::string::*;
use vstd::utf8::*;

verus! {

/// Why a sequence of bytes is not a message.
#[derive(Clone, Copy, Debug, PartialEq, Eq, Structural)]
pub enum DecodeError {
    /// The bytes end before the message does.
    UnexpectedEnd,
    /// An index names no variant.
    UnknownVariant,
    /// A text is not UTF-8.
    InvalidText,
    /// A size is beyond what this machine can address.
    SizeOverflow,
    /// Bytes are left behind the message.
    TrailingBytes,
}

/// Outcome of reading one value from the front of some bytes: the value and
/// the bytes behind it, or the reason why there is no such value.
pub type Parsed<T> = Result<(T, Seq<u8>), DecodeError>;

/// The encoding of a text.
pub open spec fn text_bytes(text: Seq<char>) -> Seq<u8> {
    spec_u64_to_le_bytes(encode_utf8(text).len() as u64) + encode_utf8(text)
}

/// The encoding of a block of bytes.
pub open spec fn blob_bytes(blob: Seq<u8>) -> Seq<u8> {
    spec_u64_to_le_bytes(blob.len() as u64) + blob
}

/// The encoding of a chunk.
pub open spec fn chunk_bytes(chunk: ChunkView) -> Seq<u8> {
    match chunk {
        ChunkView::Data(data) => spec_u32_to_le_bytes(0) + blob_bytes(data),
        ChunkView::Error => spec_u32_to_le_bytes(1),
        ChunkView::End => spec_u32_to_le_bytes(2),
    }
}

/// The encoding of a video frame: its data, its width and its height.
pub open spec fn frame_bytes(frame: (Seq<u8>, usize, usize)) -> Seq<u8> {
    blob_bytes(frame.0) + spec_u64_to_le_bytes(frame.1 as u64) + spec_u64_to_le_bytes(
        frame.2 as u64,
    )
}

/// The index that names the variant of a message.
pub open spec fn variant_index(message: NetMessageView) -> u32 {
    match message {
        NetMessageView::HelloLan(_, _) => 0,
        NetMessageView::HelloUser(_) => 1,
        NetMessageView::UserMessage(_) => 2,
        NetMessageView::UserData(_, _) => 3,
        NetMessageView::Stream(_) => 4,
        NetMessageView::StreamAudio(_) => 5,
    }
}

/// The encoding of the fields of a message.
pub open spec fn body_bytes(message: NetMessageView) -> Seq<u8> {
    match message {
        NetMessageView::HelloLan(name, port) => text_bytes(name) + spec_u16_to_le_bytes(port),
        NetMessageView::HelloUser(name) => text_bytes(name),
        NetMessageView::UserMessage(content) => text_bytes(content),
        NetMessageView::UserData(file_name, chunk) => text_bytes(file_name) + chunk_bytes(chunk),
        NetMessageView::Stream(None) => seq![0u8],
        NetMessageView::Stream(Some(frame)) => seq![1u8] + frame_bytes(frame),
        NetMessageView::StreamAudio(None) => seq![0u8],
        NetMessageView::StreamAudio(Some(samples)) => seq![1u8] + blob_bytes(samples),
    }
}

/// The encoding of a message: the index of its variant, then its fields.
pub open spec fn message_bytes(message: NetMessageView) -> Seq<u8> {
    spec_u32_to_le_bytes(variant_index(message)) + body_bytes(message)
}

/// Whether every length in the chunk can be written in 64 bits.
pub open spec fn chunk_fits(chunk: ChunkView) -> bool {
    chunk matches ChunkView::Data(data) ==> data.len() <= u64::MAX
}

/// Whether every length in the message can be written in 64 bits. It is so
/// for the model of every message that a program can hold.
pub open spec fn message_fits(message: NetMessageView) -> bool {
    match message {
        NetMessageView::HelloLan(name, _) => encode_utf8(name).len() <= u64::MAX,
        NetMessageView::HelloUser(name) => encode_utf8(name).len() <= u64::MAX,
        NetMessageView::UserMessage(content) => encode_utf8(content).len() <= u64::MAX,
        NetMessageView::UserData(file_name, chunk) => encode_utf8(file_name).len() <= u64::MAX
            && chunk_fits(chunk),
        NetMessageView::Stream(None) => true,
        NetMessageView::Stream(Some((data, _, _))) => data.len() <= u64::MAX,
        NetMessageView::StreamAudio(None) => true,
        NetMessageView::StreamAudio(Some(samples)) => samples.len() <= u64::MAX,
    }
}

/// Reads one byte.
pub open spec fn take_u8(bytes: Seq<u8>) -> Parsed<u8> {
    if bytes.len() < 1 {
        Err(DecodeError::UnexpectedEnd)
    } else {
        Ok((bytes[0], bytes.skip(1)))
    }
}

/// Reads an integer of 16 bits.
pub open spec fn take_u16(bytes: Seq<u8>) -> Parsed<u16> {
    if bytes.len() < 2 {
        Err(DecodeError::UnexpectedEnd)
    } else {
        Ok((spec_u16_from_le_bytes(bytes.take(2)), bytes.skip(2)))
    }
}

/// Reads an integer of 32 bits.
pub open spec fn take_u32(bytes: Seq<u8>) -> Parsed<u32> {
    if bytes.len() < 4 {
        Err(DecodeError::UnexpectedEnd)
    } else {
        Ok((spec_u32_from_le_bytes(bytes.take(4)), bytes.skip(4)))
    }
}

/// Reads an integer of 64 bits.
pub open spec fn take_u64(bytes: Seq<u8>) -> Parsed<u64> {
    if bytes.len() < 8 {
        Err(DecodeError::UnexpectedEnd)
    } else {
        Ok((spec_u64_from_le_bytes(bytes.take(8)), bytes.skip(8)))
    }
}

/// Reads a size.
pub open spec fn take_size(bytes: Seq<u8>) -> Parsed<usize> {
    match take_u64(bytes) {
        Ok((value, rest)) => if value > usize::MAX {
            Err(DecodeError::SizeOverflow)
        } else {
            Ok((value as usize, rest))
        },
        Err(e) => Err(e),
    }
}

/// Reads a block of bytes.
pub open spec fn take_blob(bytes: Seq<u8>) -> Parsed<Seq<u8>> {
    match take_u64(bytes) {
        Ok((len, rest)) => if len > rest.len() {
            Err(DecodeError::UnexpectedEnd)
        } else {
            Ok((rest.take(len as int), rest.skip(len as int)))
        },
        Err(e) => Err(e),
    }
}

/// Reads a text.
pub open spec fn take_text(bytes: Seq<u8>) -> Parsed<Seq<char>> {
    match take_blob(bytes) {
        Ok((blob, rest)) => if valid_utf8(blob) {
            Ok((decode_utf8(blob), rest))
        } else {
            Err(DecodeError::InvalidText)
        },
        Err(e) => Err(e),
    }
}

/// Reads a chunk.
pub open spec fn take_chunk(bytes: Seq<u8>) -> Parsed<ChunkView> {
    match take_u32(bytes) {
        Ok((variant, rest)) => if variant == 0 {
            match take_blob(rest) {
                Ok((data, rest)) => Ok((ChunkView::Data(data), rest)),
                Err(e) => Err(e),
            }
        } else if variant == 1 {
            Ok((ChunkView::Error, rest))
        } else if variant == 2 {
            Ok((ChunkView::End, rest))
        } else {
            Err(DecodeError::UnknownVariant)
        },
        Err(e) => Err(e),
    }
}

/// Reads a video frame: its data, its width and its height.
pub open spec fn take_frame(bytes: Seq<u8>) -> Parsed<(Seq<u8>, usize, usize)> {
    match take_blob(bytes) {
        Ok((data, rest)) => match take_size(rest) {
            Ok((width, rest)) => match take_size(rest) {
                Ok((height, rest)) => Ok(((data, width, height), rest)),
                Err(e) => Err(e),
            },
            Err(e) => Err(e),
        },
        Err(e) => Err(e),
    }
}

/// Reads what follows the variant index of a message.
pub open spec fn take_body(variant: u32, bytes: Seq<u8>) -> Parsed<NetMessageView> {
    if variant == 0 {
        match take_text(bytes) {
            Ok((name, rest)) => match take_u16(rest) {
                Ok((port, rest)) => Ok((NetMessageView::HelloLan(name, port), rest)),
                Err(e) => Err(e),
            },
            Err(e) => Err(e),
        }
    } else if variant == 1 {
        match take_text(bytes) {
            Ok((name, rest)) => Ok((NetMessageView::HelloUser(name), rest)),
            Err(e) => Err(e),
        }
    } else if variant == 2 {
        match take_text(bytes) {
            Ok((content, rest)) => Ok((NetMessageView::UserMessage(content), rest)),
            Err(e) => Err(e),
        }
    } else if variant == 3 {
        match take_text(bytes) {
            Ok((file_name, rest)) => match take_chunk(rest) {
                Ok((chunk, rest)) => Ok((NetMessageView::UserData(file_name, chunk), rest)),
                Err(e) => Err(e),
            },
            Err(e) => Err(e),
        }
    } else if variant == 4 {
        match take_u8(bytes) {
            Ok((present, rest)) => if present == 0 {
                Ok((NetMessageView::Stream(None), rest))
            } else if present == 1 {
                match take_frame(rest) {
                    Ok((frame, rest)) => Ok((NetMessageView::Stream(Some(frame)), rest)),
                    Err(e) => Err(e),
                }
            } else {
                Err(DecodeError::UnknownVariant)
            },
            Err(e) => Err(e),
        }
    } else if variant == 5 {
        match take_u8(bytes) {
            Ok((present, rest)) => if present == 0 {
                Ok((NetMessageView::StreamAudio(None), rest))
            } else if present == 1 {
                match take_blob(rest) {
                    Ok((samples, rest)) => Ok((NetMessageView::StreamAudio(Some(samples)), rest)),
                    Err(e) => Err(e),
                }
            } else {
                Err(DecodeError::UnknownVariant)
            },
            Err(e) => Err(e),
        }
    } else {
        Err(DecodeError::UnknownVariant)
    }
}

/// Reads a message.
pub open spec fn take_message(bytes: Seq<u8>) -> Parsed<NetMessageView> {
    match take_u32(bytes) {
        Ok((variant, rest)) => take_body(variant, rest),
        Err(e) => Err(e),
    }
}

/// The message that `bytes` encodes: they hold one message and nothing else.
pub open spec fn decoded(bytes: Seq<u8>) -> Result<NetMessageView, DecodeError> {
    match take_message(bytes) {
        Ok((message, rest)) => if rest.len() == 0 {
            Ok(message)
        } else {
            Err(DecodeError::TrailingBytes)
        },
        Err(e) => Err(e),
    }
}


proof fn lemma_take_u8_of(value: u8, rest: Seq<u8>)
    ensures
        take_u8(seq![value] + rest) == Ok::<(u8, Seq<u8>), DecodeError>((value, rest)),
{
    assert((seq![value] + rest).skip(1) =~= rest);
}

proof fn lemma_take_u16_of(value: u16, rest: Seq<u8>)
    ensures
        take_u16(spec_u16_to_le_bytes(value) + rest) == Ok::<(u16, Seq<u8>), DecodeError>(
            (value, rest),
        ),
{
    lemma_auto_spec_u16_to_from_le_bytes();
    let head = spec_u16_to_le_bytes(value);
    assert((head + rest).take(2) =~= head);
    assert((head + rest).skip(2) =~= rest);
}

proof fn lemma_take_u32_of(value: u32, rest: Seq<u8>)
    ensures
        take_u32(spec_u32_to_le_bytes(value) + rest) == Ok::<(u32, Seq<u8>), DecodeError>(
            (value, rest),
        ),
{
    lemma_auto_spec_u32_to_from_le_bytes();
    let head = spec_u32_to_le_bytes(value);
    assert((head + rest).take(4) =~= head);
    assert((head + rest).skip(4) =~= rest);
}

proof fn lemma_take_u64_of(value: u64, rest: Seq<u8>)
    ensures
        take_u64(spec_u64_to_le_bytes(value) + rest) == Ok::<(u64, Seq<u8>), DecodeError>(
            (value, rest),
        ),
{
    lemma_auto_spec_u64_to_from_le_bytes();
    let head = spec_u64_to_le_bytes(value);
    assert((head + rest).take(8) =~= head);
    assert((head + rest).skip(8) =~= rest);
}

proof fn lemma_take_size_of(value: usize, rest: Seq<u8>)
    ensures
        take_size(spec_u64_to_le_bytes(value as u64) + rest) == Ok::<
            (usize, Seq<u8>),
            DecodeError,
        >((value, rest)),
{
    lemma_take_u64_of(value as u64, rest);
}

proof fn lemma_take_blob_of(blob: Seq<u8>, rest: Seq<u8>)
    requires
        blob.len() <= u64::MAX,
    ensures
        take_blob(blob_bytes(blob) + rest) == Ok::<(Seq<u8>, Seq<u8>), DecodeError>(
            (blob, rest),
        ),
{
    let head = spec_u64_to_le_bytes(blob.len() as u64);
    lemma_take_u64_of(blob.len() as u64, blob + rest);
    assert(blob_bytes(blob) + rest =~= head + (blob + rest));
    assert((blob + rest).take(blob.len() as int) =~= blob);
    assert((blob + rest).skip(blob.len() as int) =~= rest);
}

proof fn lemma_take_text_of(text: Seq<char>, rest: Seq<u8>)
    requires
        encode_utf8(text).len() <= u64::MAX,
    ensures
        take_text(text_bytes(text) + rest) == Ok::<(Seq<char>, Seq<u8>), DecodeError>(
            (text, rest),
        ),
{
    lemma_take_blob_of(encode_utf8(text), rest);
    encode_utf8_valid_utf8(text);
    encode_utf8_decode_utf8(text);
}

proof fn lemma_take_chunk_of(chunk: ChunkView, rest: Seq<u8>)
    requires
        chunk_fits(chunk),
    ensures
        take_chunk(chunk_bytes(chunk) + rest) == Ok::<(ChunkView, Seq<u8>), DecodeError>(
            (chunk, rest),
        ),
{
    match chunk {
        ChunkView::Data(data) => {
            lemma_take_u32_of(0, blob_bytes(data) + rest);
            lemma_take_blob_of(data, rest);
            lemma_concat_assoc(spec_u32_to_le_bytes(0), blob_bytes(data), rest);
        },
        ChunkView::Error => {
            lemma_take_u32_of(1, rest);
        },
        ChunkView::End => {
            lemma_take_u32_of(2, rest);
        },
    }
}

proof fn lemma_concat_assoc(a: Seq<u8>, b: Seq<u8>, c: Seq<u8>)
    ensures
        (a + b) + c == a + (b + c),
{
    assert((a + b) + c =~= a + (b + c));
}

proof fn lemma_take_frame_of(frame: (Seq<u8>, usize, usize), rest: Seq<u8>)
    requires
        frame.0.len() <= u64::MAX,
    ensures
        take_frame(frame_bytes(frame) + rest) == Ok::<
            ((Seq<u8>, usize, usize), Seq<u8>),
            DecodeError,
        >((frame, rest)),
{
    let d = blob_bytes(frame.0);
    let w = spec_u64_to_le_bytes(frame.1 as u64);
    let h = spec_u64_to_le_bytes(frame.2 as u64);
    lemma_take_blob_of(frame.0, w + (h + rest));
    lemma_take_size_of(frame.1, h + rest);
    lemma_take_size_of(frame.2, rest);
    lemma_concat_assoc(d + w, h, rest);
    lemma_concat_assoc(d, w, h + rest);
}

proof fn lemma_take_body_of(message: NetMessageView, rest: Seq<u8>)
    requires
        message_fits(message),
    ensures
        take_body(variant_index(message), body_bytes(message) + rest) == Ok::<
            (NetMessageView, Seq<u8>),
            DecodeError,
        >((message, rest)),
{
    match message {
        NetMessageView::HelloLan(name, port) => {
            lemma_take_text_of(name, spec_u16_to_le_bytes(port) + rest);
            lemma_take_u16_of(port, rest);
            lemma_concat_assoc(text_bytes(name), spec_u16_to_le_bytes(port), rest);
        },
        NetMessageView::HelloUser(name) => {
            lemma_take_text_of(name, rest);
        },
        NetMessageView::UserMessage(content) => {
            lemma_take_text_of(content, rest);
        },
        NetMessageView::UserData(file_name, chunk) => {
            lemma_take_text_of(file_name, chunk_bytes(chunk) + rest);
            lemma_take_chunk_of(chunk, rest);
            lemma_concat_assoc(text_bytes(file_name), chunk_bytes(chunk), rest);
        },
        NetMessageView::Stream(None) => {
            lemma_take_u8_of(0, rest);
        },
        NetMessageView::Stream(Some(frame)) => {
            lemma_take_u8_of(1, frame_bytes(frame) + rest);
            lemma_take_frame_of(frame, rest);
            lemma_concat_assoc(seq![1u8], frame_bytes(frame), rest);
        },
        NetMessageView::StreamAudio(None) => {
            lemma_take_u8_of(0, rest);
        },
        NetMessageView::StreamAudio(Some(samples)) => {
            lemma_take_u8_of(1, blob_bytes(samples) + rest);
            lemma_take_blob_of(samples, rest);
            lemma_concat_assoc(seq![1u8], blob_bytes(samples), rest);
        },
    }
}

proof fn lemma_take_message_of(message: NetMessageView, rest: Seq<u8>)
    requires
        message_fits(message),
    ensures
        take_message(message_bytes(message) + rest) == Ok::<
            (NetMessageView, Seq<u8>),
            DecodeError,
        >((message, rest)),
{
    lemma_take_u32_of(variant_index(message), body_bytes(message) + rest);
    lemma_take_body_of(message, rest);
    lemma_concat_assoc(
        spec_u32_to_le_bytes(variant_index(message)),
        body_bytes(message),
        rest,
    );
}

/// Decoding gives back what was encoded: the bytes of a message decode to
/// that message.
pub proof fn lemma_decode_encode(message: NetMessageView)
    requires
        message_fits(message),
    ensures
        decoded(message_bytes(message)) == Ok::<NetMessageView, DecodeError>(message),
{
    lemma_take_message_of(message, Seq::empty());
    assert(message_bytes(message) + Seq::<u8>::empty() =~= message_bytes(message));
}

proof fn lemma_u8_taken(bytes: Seq<u8>)
    requires
        take_u8(bytes) is Ok,
    ensures
        bytes == seq![take_u8(bytes)->Ok_0.0] + take_u8(bytes)->Ok_0.1,
{
    assert(bytes =~= seq![bytes[0]] + bytes.skip(1));
}

proof fn lemma_u16_taken(bytes: Seq<u8>)
    requires
        take_u16(bytes) is Ok,
    ensures
        bytes == spec_u16_to_le_bytes(take_u16(bytes)->Ok_0.0) + take_u16(bytes)->Ok_0.1,
{
    lemma_auto_spec_u16_to_from_le_bytes();
    assert(bytes =~= bytes.take(2) + bytes.skip(2));
}

proof fn lemma_u32_taken(bytes: Seq<u8>)
    requires
        take_u32(bytes) is Ok,
    ensures
        bytes == spec_u32_to_le_bytes(take_u32(bytes)->Ok_0.0) + take_u32(bytes)->Ok_0.1,
{
    lemma_auto_spec_u32_to_from_le_bytes();
    assert(bytes =~= bytes.take(4) + bytes.skip(4));
}

proof fn lemma_u64_taken(bytes: Seq<u8>)
    requires
        take_u64(bytes) is Ok,
    ensures
        bytes == spec_u64_to_le_bytes(take_u64(bytes)->Ok_0.0) + take_u64(bytes)->Ok_0.1,
{
    lemma_auto_spec_u64_to_from_le_bytes();
    assert(bytes =~= bytes.take(8) + bytes.skip(8));
}

proof fn lemma_size_taken(bytes: Seq<u8>)
    requires
        take_size(bytes) is Ok,
    ensures
        bytes == spec_u64_to_le_bytes(take_size(bytes)->Ok_0.0 as u64) + take_size(
            bytes,
        )->Ok_0.1,
{
    lemma_u64_taken(bytes);
}

proof fn lemma_blob_taken(bytes: Seq<u8>)
    requires
        take_blob(bytes) is Ok,
    ensures
        take_blob(bytes)->Ok_0.0.len() <= u64::MAX,
        bytes == blob_bytes(take_blob(bytes)->Ok_0.0) + take_blob(bytes)->Ok_0.1,
{
    lemma_u64_taken(bytes);
    let (len, rest) = take_u64(bytes)->Ok_0;
    assert(rest =~= rest.take(len as int) + rest.skip(len as int));
    assert(bytes =~= blob_bytes(rest.take(len as int)) + rest.skip(len as int));
}

proof fn lemma_text_taken(bytes: Seq<u8>)
    requires
        take_text(bytes) is Ok,
    ensures
        encode_utf8(take_text(bytes)->Ok_0.0).len() <= u64::MAX,
        bytes == text_bytes(take_text(bytes)->Ok_0.0) + take_text(bytes)->Ok_0.1,
{
    lemma_blob_taken(bytes);
    decode_utf8_encode_utf8(take_blob(bytes)->Ok_0.0);
}

proof fn lemma_chunk_taken(bytes: Seq<u8>)
    requires
        take_chunk(bytes) is Ok,
    ensures
        chunk_fits(take_chunk(bytes)->Ok_0.0),
        bytes == chunk_bytes(take_chunk(bytes)->Ok_0.0) + take_chunk(bytes)->Ok_0.1,
{
    lemma_u32_taken(bytes);
    let (variant, rest) = take_u32(bytes)->Ok_0;
    if variant == 0 {
        lemma_blob_taken(rest);
        let (data, rest2) = take_blob(rest)->Ok_0;
        lemma_concat_assoc(spec_u32_to_le_bytes(0), blob_bytes(data), rest2);
    }
}

proof fn lemma_frame_taken(bytes: Seq<u8>)
    requires
        take_frame(bytes) is Ok,
    ensures
        take_frame(bytes)->Ok_0.0.0.len() <= u64::MAX,
        bytes == frame_bytes(take_frame(bytes)->Ok_0.0) + take_frame(bytes)->Ok_0.1,
{
    lemma_blob_taken(bytes);
    let (data, rest1) = take_blob(bytes)->Ok_0;
    lemma_size_taken(rest1);
    let (width, rest2) = take_size(rest1)->Ok_0;
    lemma_size_taken(rest2);
    let (height, rest3) = take_size(rest2)->Ok_0;
    let d = blob_bytes(data);
    let w = spec_u64_to_le_bytes(width as u64);
    let h = spec_u64_to_le_bytes(height as u64);
    lemma_concat_assoc(d + w, h, rest3);
    lemma_concat_assoc(d, w, h + rest3);
}

proof fn lemma_body_taken(variant: u32, bytes: Seq<u8>)
    requires
        take_body(variant, bytes) is Ok,
    ensures
        variant_index(take_body(variant, bytes)->Ok_0.0) == variant,
        message_fits(take_body(variant, bytes)->Ok_0.0),
        bytes == body_bytes(take_body(variant, bytes)->Ok_0.0) + take_body(
            variant,
            bytes,
        )->Ok_0.1,
{
    let (message, rest) = take_body(variant, bytes)->Ok_0;
    if variant == 0 {
        lemma_text_taken(bytes);
        let (name, rest1) = take_text(bytes)->Ok_0;
        lemma_u16_taken(rest1);
        let (port, rest2) = take_u16(rest1)->Ok_0;
        lemma_concat_assoc(text_bytes(name), spec_u16_to_le_bytes(port), rest2);
    } else if variant == 1 || variant == 2 {
        lemma_text_taken(bytes);
    } else if variant == 3 {
        lemma_text_taken(bytes);
        let (file_name, rest1) = take_text(bytes)->Ok_0;
        lemma_chunk_taken(rest1);
        let (chunk, rest2) = take_chunk(rest1)->Ok_0;
        lemma_concat_assoc(text_bytes(file_name), chunk_bytes(chunk), rest2);
    } else if variant == 4 {
        lemma_u8_taken(bytes);
        let (present, rest1) = take_u8(bytes)->Ok_0;
        if present == 1 {
            lemma_frame_taken(rest1);
            let (frame, rest2) = take_frame(rest1)->Ok_0;
            lemma_concat_assoc(seq![1u8], frame_bytes(frame), rest2);
        }
    } else {
        lemma_u8_taken(bytes);
        let (present, rest1) = take_u8(bytes)->Ok_0;
        if present == 1 {
            lemma_blob_taken(rest1);
            let (samples, rest2) = take_blob(rest1)->Ok_0;
            lemma_concat_assoc(seq![1u8], blob_bytes(samples), rest2);
        }
    }
}

proof fn lemma_message_taken(bytes: Seq<u8>)
    requires
        take_message(bytes) is Ok,
    ensures
        message_fits(take_message(bytes)->Ok_0.0),
        bytes == message_bytes(take_message(bytes)->Ok_0.0) + take_message(bytes)->Ok_0.1,
{
    lemma_u32_taken(bytes);
    let (variant, body) = take_u32(bytes)->Ok_0;
    lemma_body_taken(variant, body);
    let (message, rest) = take_body(variant, body)->Ok_0;
    lemma_concat_assoc(spec_u32_to_le_bytes(variant), body_bytes(message), rest);
}

/// Only the encoding of a message decodes to it: bytes that decode are the
/// bytes of the message they decode to.
pub proof fn lemma_encode_decode(bytes: Seq<u8>)
    requires
        decoded(bytes) is Ok,
    ensures
        message_fits(decoded(bytes)->Ok_0),
        message_bytes(decoded(bytes)->Ok_0) == bytes,
{
    lemma_message_taken(bytes);
    assert(message_bytes(decoded(bytes)->Ok_0) + take_message(bytes)->Ok_0.1 =~= message_bytes(
        decoded(bytes)->Ok_0,
    ));
}


/// `String::from_utf8` gives the text that `bytes` encode in UTF-8, and
/// fails exactly where they are not UTF-8.
#[verifier::external_body]
fn text_from_utf8(bytes: Vec<u8>) -> (text: Option<String>)
    ensures
        match text {
            Some(text) => valid_utf8(bytes@) && text@ == decode_utf8(bytes@),
            None => !valid_utf8(bytes@),
        },
{
    match String::from_utf8(bytes) {
        Ok(text) => Some(text),
        Err(_) => None,
    }
}

fn put_bytes(buffer: &mut Vec<u8>, bytes: &[u8])
    ensures
        final(buffer)@ == old(buffer)@ + bytes@,
{
    let mut i: usize = 0;
    while i < bytes.len()
        invariant
            i <= bytes.len(),
            buffer@ == old(buffer)@ + bytes@.take(i as int),
        decreases bytes.len() - i,
    {
        buffer.push(bytes[i]);
        i += 1;
    }
    assert(bytes@.take(bytes.len() as int) =~= bytes@);
}

fn put_u16(buffer: &mut Vec<u8>, value: u16)
    ensures
        final(buffer)@ == old(buffer)@ + spec_u16_to_le_bytes(value),
{
    let bytes = u16_to_le_bytes(value);
    put_bytes(buffer, bytes.as_slice());
}

fn put_u32(buffer: &mut Vec<u8>, value: u32)
    ensures
        final(buffer)@ == old(buffer)@ + spec_u32_to_le_bytes(value),
{
    let bytes = u32_to_le_bytes(value);
    put_bytes(buffer, bytes.as_slice());
}

fn put_u64(buffer: &mut Vec<u8>, value: u64)
    ensures
        final(buffer)@ == old(buffer)@ + spec_u64_to_le_bytes(value),
{
    let bytes = u64_to_le_bytes(value);
    put_bytes(buffer, bytes.as_slice());
}

fn put_blob(buffer: &mut Vec<u8>, blob: &[u8])
    ensures
        final(buffer)@ == old(buffer)@ + blob_bytes(blob@),
        blob@.len() <= u64::MAX,
{
    put_u64(buffer, blob.len() as u64);
    put_bytes(buffer, blob);
    proof {
        lemma_concat_assoc(old(buffer)@, spec_u64_to_le_bytes(blob@.len() as u64), blob@);
    }
}

fn put_text(buffer: &mut Vec<u8>, text: &str)
    ensures
        final(buffer)@ == old(buffer)@ + text_bytes(text@),
        encode_utf8(text@).len() <= u64::MAX,
{
    put_blob(buffer, text.as_bytes());
}

fn put_chunk(buffer: &mut Vec<u8>, chunk: &Chunk)
    ensures
        final(buffer)@ == old(buffer)@ + chunk_bytes(chunk@),
        chunk_fits(chunk@),
{
    match chunk {
        Chunk::Data(data) => {
            put_u32(buffer, 0);
            put_blob(buffer, data.as_slice());
            proof {
                lemma_concat_assoc(old(buffer)@, spec_u32_to_le_bytes(0), blob_bytes(data@));
            }
        },
        Chunk::Error => {
            put_u32(buffer, 1);
        },
        Chunk::End => {
            put_u32(buffer, 2);
        },
    }
}

fn put_frame(buffer: &mut Vec<u8>, data: &Vec<u8>, width: usize, height: usize)
    ensures
        final(buffer)@ == old(buffer)@ + frame_bytes((data@, width, height)),
        data@.len() <= u64::MAX,
{
    put_blob(buffer, data.as_slice());
    put_u64(buffer, width as u64);
    put_u64(buffer, height as u64);
    proof {
        let d = blob_bytes(data@);
        let w = spec_u64_to_le_bytes(width as u64);
        let h = spec_u64_to_le_bytes(height as u64);
        lemma_concat_assoc(old(buffer)@, d, w);
        lemma_concat_assoc(old(buffer)@, d + w, h);
    }
}

fn put_body(buffer: &mut Vec<u8>, message: &NetMessage)
    ensures
        final(buffer)@ == old(buffer)@ + body_bytes(message@),
        message_fits(message@),
{
    match message {
        NetMessage::HelloLan(name, port) => {
            put_text(buffer, name.as_str());
            put_u16(buffer, *port);
            proof {
                lemma_concat_assoc(old(buffer)@, text_bytes(name@), spec_u16_to_le_bytes(*port));
            }
        },
        NetMessage::HelloUser(name) => {
            put_text(buffer, name.as_str());
        },
        NetMessage::UserMessage(content) => {
            put_text(buffer, content.as_str());
        },
        NetMessage::UserData(file_name, chunk) => {
            put_text(buffer, file_name.as_str());
            put_chunk(buffer, chunk);
            proof {
                lemma_concat_assoc(old(buffer)@, text_bytes(file_name@), chunk_bytes(chunk@));
            }
        },
        NetMessage::Stream(None) => {
            buffer.push(0);
            assert(buffer@ =~= old(buffer)@ + seq![0u8]);
        },
        NetMessage::Stream(Some((data, width, height))) => {
            buffer.push(1);
            assert(buffer@ =~= old(buffer)@ + seq![1u8]);
            put_frame(buffer, data, *width, *height);
            proof {
                lemma_concat_assoc(
                    old(buffer)@,
                    seq![1u8],
                    frame_bytes((data@, *width, *height)),
                );
            }
        },
        NetMessage::StreamAudio(None) => {
            buffer.push(0);
            assert(buffer@ =~= old(buffer)@ + seq![0u8]);
        },
        NetMessage::StreamAudio(Some(samples)) => {
            buffer.push(1);
            assert(buffer@ =~= old(buffer)@ + seq![1u8]);
            put_blob(buffer, samples.as_slice());
            proof {
                lemma_concat_assoc(old(buffer)@, seq![1u8], blob_bytes(samples@));
            }
        },
    }
}

fn variant_of(message: &NetMessage) -> (variant: u32)
    ensures
        variant == variant_index(message@),
{
    match message {
        NetMessage::HelloLan(_, _) => 0,
        NetMessage::HelloUser(_) => 1,
        NetMessage::UserMessage(_) => 2,
        NetMessage::UserData(_, _) => 3,
        NetMessage::Stream(_) => 4,
        NetMessage::StreamAudio(_) => 5,
    }
}

/// Encodes messages into a buffer that it keeps from one message to the next.
pub struct Encoder {
    output_buffer: Vec<u8>,
}

impl View for Encoder {
    type V = Seq<u8>;

    closed spec fn view(&self) -> Seq<u8> {
        self.output_buffer@
    }
}

impl Encoder {
    /// An encoder with an empty buffer.
    pub fn new() -> (encoder: Encoder)
        ensures
            encoder@ == Seq::<u8>::empty(),
    {
        Self { output_buffer: Vec::new() }
    }

    /// The bytes of `message`. They decode to `message` again, and nothing
    /// else does: see [`lemma_decode_encode`] and [`lemma_encode_decode`].
    pub fn encode(&mut self, message: NetMessage) -> (bytes: &[u8])
        ensures
            bytes@ == message_bytes(message@),
            final(self)@ == bytes@,
            message_fits(message@),
            decoded(bytes@) == Ok::<NetMessageView, DecodeError>(message@),
    {
        self.output_buffer.clear();
        put_u32(&mut self.output_buffer, variant_of(&message));
        put_body(&mut self.output_buffer, &message);
        proof {
            assert(self.output_buffer@ =~= message_bytes(message@));
            lemma_decode_encode(message@);
        }
        self.output_buffer.as_slice()
    }
}

/// What a reader has when it has read `value` and comes to stand at `next`.
pub open spec fn read_at<T>(value: T, next: usize, data: Seq<u8>) -> Parsed<T> {
    Ok((value, data.skip(next as int)))
}

/// Whether `result`, the value read from `data` and the place behind it,
/// is what `parsed` says of the bytes read.
pub open spec fn reads<T>(result: Result<(T, usize), DecodeError>, parsed: Parsed<T>, data: Seq<u8>)
    -> bool {
    match result {
        Ok((value, next)) => next <= data.len() && parsed == read_at(value, next, data),
        Err(e) => parsed == Err::<(T, Seq<u8>), DecodeError>(e),
    }
}

proof fn lemma_skip_skip(data: Seq<u8>, pos: int, count: int)
    requires
        0 <= pos,
        0 <= count,
        pos + count <= data.len(),
    ensures
        data.skip(pos).skip(count) == data.skip(pos + count),
        data.skip(pos).take(count) == data.subrange(pos, pos + count),
        data.skip(pos).len() == data.len() - pos,
{
    assert(data.skip(pos).skip(count) =~= data.skip(pos + count));
    assert(data.skip(pos).take(count) =~= data.subrange(pos, pos + count));
}

fn get_u8(data: &[u8], pos: usize) -> (result: Result<(u8, usize), DecodeError>)
    requires
        pos <= data@.len(),
    ensures
        reads(result, take_u8(data@.skip(pos as int)), data@),
{
    if data.len() - pos < 1 {
        return Err(DecodeError::UnexpectedEnd);
    }
    proof {
        lemma_skip_skip(data@, pos as int, 1);
    }
    Ok((data[pos], pos + 1))
}

fn get_u16(data: &[u8], pos: usize) -> (result: Result<(u16, usize), DecodeError>)
    requires
        pos <= data@.len(),
    ensures
        reads(result, take_u16(data@.skip(pos as int)), data@),
{
    if data.len() - pos < 2 {
        return Err(DecodeError::UnexpectedEnd);
    }
    proof {
        lemma_skip_skip(data@, pos as int, 2);
    }
    Ok((u16_from_le_bytes(slice_subrange(data, pos, pos + 2)), pos + 2))
}

fn get_u32(data: &[u8], pos: usize) -> (result: Result<(u32, usize), DecodeError>)
    requires
        pos <= data@.len(),
    ensures
        reads(result, take_u32(data@.skip(pos as int)), data@),
{
    if data.len() - pos < 4 {
        return Err(DecodeError::UnexpectedEnd);
    }
    proof {
        lemma_skip_skip(data@, pos as int, 4);
    }
    Ok((u32_from_le_bytes(slice_subrange(data, pos, pos + 4)), pos + 4))
}

fn get_u64(data: &[u8], pos: usize) -> (result: Result<(u64, usize), DecodeError>)
    requires
        pos <= data@.len(),
    ensures
        reads(result, take_u64(data@.skip(pos as int)), data@),
{
    if data.len() - pos < 8 {
        return Err(DecodeError::UnexpectedEnd);
    }
    proof {
        lemma_skip_skip(data@, pos as int, 8);
    }
    Ok((u64_from_le_bytes(slice_subrange(data, pos, pos + 8)), pos + 8))
}

fn get_size(data: &[u8], pos: usize) -> (result: Result<(usize, usize), DecodeError>)
    requires
        pos <= data@.len(),
    ensures
        reads(result, take_size(data@.skip(pos as int)), data@),
{
    match get_u64(data, pos) {
        Ok((value, next)) => {
            if value > usize::MAX as u64 {
                Err(DecodeError::SizeOverflow)
            } else {
                Ok((value as usize, next))
            }
        },
        Err(e) => Err(e),
    }
}

fn get_blob(data: &[u8], pos: usize) -> (result: Result<(Vec<u8>, usize), DecodeError>)
    requires
        pos <= data@.len(),
    ensures
        match result {
            Ok((blob, next)) => next <= data@.len() && take_blob(data@.skip(pos as int))
                == read_at(blob@, next, data@),
            Err(e) => take_blob(data@.skip(pos as int)) == Err::<(Seq<u8>, Seq<u8>), DecodeError>(
                e,
            ),
        },
{
    match get_u64(data, pos) {
        Ok((len, start)) => {
            proof {
                lemma_skip_skip(data@, start as int, 0);
            }
            if len > (data.len() - start) as u64 {
                Err(DecodeError::UnexpectedEnd)
            } else {
                let end = start + (len as usize);
                proof {
                    lemma_skip_skip(data@, start as int, len as int);
                }
                Ok((slice_to_vec(slice_subrange(data, start, end)), end))
            }
        },
        Err(e) => Err(e),
    }
}

fn get_text(data: &[u8], pos: usize) -> (result: Result<(String, usize), DecodeError>)
    requires
        pos <= data@.len(),
    ensures
        match result {
            Ok((text, next)) => next <= data@.len() && take_text(data@.skip(pos as int))
                == read_at(text@, next, data@),
            Err(e) => take_text(data@.skip(pos as int)) == Err::<
                (Seq<char>, Seq<u8>),
                DecodeError,
            >(e),
        },
{
    match get_blob(data, pos) {
        Ok((blob, next)) => match text_from_utf8(blob) {
            Some(text) => Ok((text, next)),
            None => Err(DecodeError::InvalidText),
        },
        Err(e) => Err(e),
    }
}

fn get_chunk(data: &[u8], pos: usize) -> (result: Result<(Chunk, usize), DecodeError>)
    requires
        pos <= data@.len(),
    ensures
        match result {
            Ok((chunk, next)) => next <= data@.len() && take_chunk(data@.skip(pos as int))
                == read_at(chunk@, next, data@),
            Err(e) => take_chunk(data@.skip(pos as int)) == Err::<
                (ChunkView, Seq<u8>),
                DecodeError,
            >(e),
        },
{
    match get_u32(data, pos) {
        Ok((variant, next)) => {
            if variant == 0 {
                match get_blob(data, next) {
                    Ok((blob, next)) => Ok((Chunk::Data(blob), next)),
                    Err(e) => Err(e),
                }
            } else if variant == 1 {
                Ok((Chunk::Error, next))
            } else if variant == 2 {
                Ok((Chunk::End, next))
            } else {
                Err(DecodeError::UnknownVariant)
            }
        },
        Err(e) => Err(e),
    }
}

fn get_frame(data: &[u8], pos: usize) -> (result: Result<((Vec<u8>, usize, usize), usize), DecodeError>)
    requires
        pos <= data@.len(),
    ensures
        match result {
            Ok((frame, next)) => next <= data@.len() && take_frame(data@.skip(pos as int))
                == read_at((frame.0@, frame.1, frame.2), next, data@),
            Err(e) => take_frame(data@.skip(pos as int)) == Err::<
                ((Seq<u8>, usize, usize), Seq<u8>),
                DecodeError,
            >(e),
        },
{
    match get_blob(data, pos) {
        Ok((blob, next)) => match get_size(data, next) {
            Ok((width, next)) => match get_size(data, next) {
                Ok((height, next)) => Ok(((blob, width, height), next)),
                Err(e) => Err(e),
            },
            Err(e) => Err(e),
        },
        Err(e) => Err(e),
    }
}

fn get_body(variant: u32, data: &[u8], pos: usize) -> (result: Result<
    (NetMessage, usize),
    DecodeError,
>)
    requires
        pos <= data@.len(),
    ensures
        match result {
            Ok((message, next)) => next <= data@.len() && take_body(
                variant,
                data@.skip(pos as int),
            ) == read_at(message@, next, data@),
            Err(e) => take_body(variant, data@.skip(pos as int)) == Err::<
                (NetMessageView, Seq<u8>),
                DecodeError,
            >(e),
        },
{
    if variant == 0 {
        match get_text(data, pos) {
            Ok((name, next)) => match get_u16(data, next) {
                Ok((port, next)) => Ok((NetMessage::HelloLan(name, port), next)),
                Err(e) => Err(e),
            },
            Err(e) => Err(e),
        }
    } else if variant == 1 {
        match get_text(data, pos) {
            Ok((name, next)) => Ok((NetMessage::HelloUser(name), next)),
            Err(e) => Err(e),
        }
    } else if variant == 2 {
        match get_text(data, pos) {
            Ok((content, next)) => Ok((NetMessage::UserMessage(content), next)),
            Err(e) => Err(e),
        }
    } else if variant == 3 {
        match get_text(data, pos) {
            Ok((file_name, next)) => match get_chunk(data, next) {
                Ok((chunk, next)) => Ok((NetMessage::UserData(file_name, chunk), next)),
                Err(e) => Err(e),
            },
            Err(e) => Err(e),
        }
    } else if variant == 4 {
        match get_u8(data, pos) {
            Ok((present, next)) => {
                if present == 0 {
                    Ok((NetMessage::Stream(None), next))
                } else if present == 1 {
                    match get_frame(data, next) {
                        Ok((frame, next)) => Ok((NetMessage::Stream(Some(frame)), next)),
                        Err(e) => Err(e),
                    }
                } else {
                    Err(DecodeError::UnknownVariant)
                }
            },
            Err(e) => Err(e),
        }
    } else if variant == 5 {
        match get_u8(data, pos) {
            Ok((present, next)) => {
                if present == 0 {
                    Ok((NetMessage::StreamAudio(None), next))
                } else if present == 1 {
                    match get_blob(data, next) {
                        Ok((samples, next)) => Ok((NetMessage::StreamAudio(Some(samples)), next)),
                        Err(e) => Err(e),
                    }
                } else {
                    Err(DecodeError::UnknownVariant)
                }
            },
            Err(e) => Err(e),
        }
    } else {
        Err(DecodeError::UnknownVariant)
    }
}

/// The message that `data_message` encodes. Decoding succeeds on the bytes
/// of a message, which it gives back, and on no other bytes; the error says
/// what is wrong with them.
pub fn decode(data_message: &[u8]) -> (result: Result<NetMessage, DecodeError>)
    ensures
        match result {
            Ok(message) => decoded(data_message@) == Ok::<NetMessageView, DecodeError>(message@)
                && data_message@ == message_bytes(message@),
            Err(e) => decoded(data_message@) == Err::<NetMessageView, DecodeError>(e)
                && forall|message: NetMessageView|
                    message_fits(message) ==> #[trigger] message_bytes(message)
                        != data_message@,
        },
{
    assert(data_message@.skip(0) =~= data_message@);
    let outcome = match get_u32(data_message, 0) {
        Ok((variant, next)) => get_body(variant, data_message, next),
        Err(e) => Err(e),
    };
    match outcome {
        Ok((message, next)) => {
            if next == data_message.len() {
                proof {
                    lemma_encode_decode(data_message@);
                }
                Ok(message)
            } else {
                proof {
                    lemma_no_message_where_decoding_fails(data_message@);
                }
                Err(DecodeError::TrailingBytes)
            }
        },
        Err(e) => {
            proof {
                lemma_no_message_where_decoding_fails(data_message@);
            }
            Err(e)
        },
    }
}

proof fn lemma_no_message_where_decoding_fails(bytes: Seq<u8>)
    requires
        decoded(bytes) is Err,
    ensures
        forall|message: NetMessageView|
            message_fits(message) ==> #[trigger] message_bytes(message) != bytes,
{
    assert forall|message: NetMessageView| message_fits(message) implies #[trigger] message_bytes(
        message,
    ) != bytes by {
        lemma_decode_encode(message);
    }
}

} // verus!
