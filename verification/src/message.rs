//! The wire envelope exchanged between peers.

use vstd::prelude::*;

verus! {

/// One segment of a file-transfer payload.
#[derive(Clone, Debug, PartialEq, Eq)]
pub enum Chunk {
    /// A block of file content.
    Data(Vec<u8>),
    /// The sender failed while reading the file.
    Error,
    /// The file has been sent completely.
    End,
}

/// Mathematical model of a [`Chunk`].
pub enum ChunkView {
    Data(Seq<u8>),
    Error,
    End,
}

impl View for Chunk {
    type V = ChunkView;

    open spec fn view(&self) -> ChunkView {
        match self {
            Chunk::Data(bytes) => ChunkView::Data(bytes@),
            Chunk::Error => ChunkView::Error,
            Chunk::End => ChunkView::End,
        }
    }
}

/// A message of the chat protocol.
#[derive(Clone, Debug, PartialEq, Eq)]
pub enum NetMessage {
    /// Multicast announcement: user name and the port of its TCP server.
    HelloLan(String, u16),
    /// Reply to an announcement over the direct connection: user name.
    HelloUser(String),
    /// A line of chat text.
    UserMessage(String),
    /// A segment of a file transfer: file name and chunk.
    UserData(String, Chunk),
    /// A video frame (data, width, height); `None` ends the stream.
    Stream(Option<(Vec<u8>, usize, usize)>),
    /// A buffer of audio samples; `None` ends the stream.
    StreamAudio(Option<Vec<u8>>),
}

/// Mathematical model of a [`NetMessage`].
pub enum NetMessageView {
    HelloLan(Seq<char>, u16),
    HelloUser(Seq<char>),
    UserMessage(Seq<char>),
    UserData(Seq<char>, ChunkView),
    Stream(Option<(Seq<u8>, usize, usize)>),
    StreamAudio(Option<Seq<u8>>),
}

impl View for NetMessage {
    type V = NetMessageView;

    open spec fn view(&self) -> NetMessageView {
        match self {
            NetMessage::HelloLan(name, port) => NetMessageView::HelloLan(name@, *port),
            NetMessage::HelloUser(name) => NetMessageView::HelloUser(name@),
            NetMessage::UserMessage(text) => NetMessageView::UserMessage(text@),
            NetMessage::UserData(file_name, chunk) => NetMessageView::UserData(file_name@, chunk@),
            NetMessage::Stream(frame) => NetMessageView::Stream(
                match frame {
                    Some((data, width, height)) => Some((data@, *width, *height)),
                    None => None,
                },
            ),
            NetMessage::StreamAudio(samples) => NetMessageView::StreamAudio(
                match samples {
                    Some(data) => Some(data@),
                    None => None,
                },
            ),
        }
    }
}

} // verus!
