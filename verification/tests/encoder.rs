use termchat::encoder::{decode, DecodeError, Encoder};
use termchat::message::{Chunk, NetMessage};

fn round_trip(message: NetMessage) {
    let mut encoder = Encoder::new();
    let bytes = encoder.encode(message.clone()).to_vec();
    assert_eq!(decode(&bytes), Ok(message));
}

#[test]
fn every_variant_survives_a_round_trip() {
    round_trip(NetMessage::HelloLan("alice".to_string(), 5877));
    round_trip(NetMessage::HelloUser("bob".to_string()));
    round_trip(NetMessage::UserMessage("hello, wörld ✓".to_string()));
    round_trip(NetMessage::UserData("a.txt".to_string(), Chunk::Data(vec![1, 2, 3])));
    round_trip(NetMessage::UserData("a.txt".to_string(), Chunk::Error));
    round_trip(NetMessage::UserData("a.txt".to_string(), Chunk::End));
    round_trip(NetMessage::Stream(None));
    round_trip(NetMessage::Stream(Some((vec![9, 8, 7, 6], 4, 2))));
    round_trip(NetMessage::StreamAudio(None));
    round_trip(NetMessage::StreamAudio(Some(vec![0, 255])));
}

#[test]
fn empty_data_chunk_survives_a_round_trip() {
    round_trip(NetMessage::UserData(String::new(), Chunk::Data(Vec::new())));
    round_trip(NetMessage::StreamAudio(Some(Vec::new())));
    round_trip(NetMessage::UserMessage(String::new()));
}

#[test]
fn hello_lan_has_the_documented_layout() {
    let mut encoder = Encoder::new();
    let bytes = encoder.encode(NetMessage::HelloLan("ab".to_string(), 0x1234)).to_vec();
    assert_eq!(bytes, vec![0, 0, 0, 0, 2, 0, 0, 0, 0, 0, 0, 0, b'a', b'b', 0x34, 0x12]);
}

#[test]
fn the_buffer_is_reused_for_the_next_message() {
    let mut encoder = Encoder::new();
    let first = encoder.encode(NetMessage::UserMessage("a long first message".to_string())).to_vec();
    let second = encoder.encode(NetMessage::Stream(None)).to_vec();
    assert_eq!(second, vec![4, 0, 0, 0, 0]);
    assert_ne!(first, second);
}

#[test]
fn layout_agrees_with_bincode() {
    let mut encoder = Encoder::new();
    assert_eq!(
        encoder.encode(NetMessage::HelloLan("alice".to_string(), 5877)).to_vec(),
        bincode::serialize(&(0u32, "alice".to_string(), 5877u16)).unwrap()
    );
    assert_eq!(
        encoder.encode(NetMessage::HelloUser("bob".to_string())).to_vec(),
        bincode::serialize(&(1u32, "bob".to_string())).unwrap()
    );
    assert_eq!(
        encoder.encode(NetMessage::UserMessage("héllo".to_string())).to_vec(),
        bincode::serialize(&(2u32, "héllo".to_string())).unwrap()
    );
    assert_eq!(
        encoder.encode(NetMessage::UserData("f".to_string(), Chunk::Data(vec![1, 2, 3]))).to_vec(),
        bincode::serialize(&(3u32, "f".to_string(), 0u32, vec![1u8, 2, 3])).unwrap()
    );
    assert_eq!(
        encoder.encode(NetMessage::UserData("f".to_string(), Chunk::Error)).to_vec(),
        bincode::serialize(&(3u32, "f".to_string(), 1u32)).unwrap()
    );
    assert_eq!(
        encoder.encode(NetMessage::UserData("f".to_string(), Chunk::End)).to_vec(),
        bincode::serialize(&(3u32, "f".to_string(), 2u32)).unwrap()
    );
    assert_eq!(
        encoder.encode(NetMessage::Stream(Some((vec![5, 6], 640, 480)))).to_vec(),
        bincode::serialize(&(4u32, Some((vec![5u8, 6], 640usize, 480usize)))).unwrap()
    );
    assert_eq!(
        encoder.encode(NetMessage::Stream(None)).to_vec(),
        bincode::serialize(&(4u32, None::<(Vec<u8>, usize, usize)>)).unwrap()
    );
    assert_eq!(
        encoder.encode(NetMessage::StreamAudio(Some(vec![7]))).to_vec(),
        bincode::serialize(&(5u32, Some(vec![7u8]))).unwrap()
    );
    assert_eq!(
        encoder.encode(NetMessage::StreamAudio(None)).to_vec(),
        bincode::serialize(&(5u32, None::<Vec<u8>>)).unwrap()
    );
}

#[test]
fn truncated_bytes_are_rejected() {
    let mut encoder = Encoder::new();
    let bytes = encoder.encode(NetMessage::UserMessage("hello".to_string())).to_vec();
    for len in 0..bytes.len() {
        assert_eq!(decode(&bytes[..len]), Err(DecodeError::UnexpectedEnd));
    }
}

#[test]
fn trailing_bytes_are_rejected() {
    let mut encoder = Encoder::new();
    let mut bytes = encoder.encode(NetMessage::Stream(None)).to_vec();
    bytes.push(0);
    assert_eq!(decode(&bytes), Err(DecodeError::TrailingBytes));
}

#[test]
fn unknown_variants_are_rejected() {
    assert_eq!(decode(&[6, 0, 0, 0]), Err(DecodeError::UnknownVariant));
    assert_eq!(decode(&[4, 0, 0, 0, 2]), Err(DecodeError::UnknownVariant));
    assert_eq!(
        decode(&[3, 0, 0, 0, 0, 0, 0, 0, 0, 0, 0, 0, 3, 0, 0, 0]),
        Err(DecodeError::UnknownVariant)
    );
}

#[test]
fn text_that_is_not_utf8_is_rejected() {
    assert_eq!(
        decode(&[1, 0, 0, 0, 1, 0, 0, 0, 0, 0, 0, 0, 0xff]),
        Err(DecodeError::InvalidText)
    );
}

#[test]
fn a_length_beyond_the_input_is_rejected() {
    assert_eq!(
        decode(&[2, 0, 0, 0, 0xff, 0xff, 0xff, 0xff, 0xff, 0xff, 0xff, 0xff, b'a']),
        Err(DecodeError::UnexpectedEnd)
    );
}

#[test]
fn a_size_beyond_the_machine_is_rejected() {
    let mut bytes = vec![4, 0, 0, 0, 1];
    bytes.extend_from_slice(&0u64.to_le_bytes());
    bytes.extend_from_slice(&u64::MAX.to_le_bytes());
    bytes.extend_from_slice(&1u64.to_le_bytes());
    if usize::BITS < 64 {
        assert_eq!(decode(&bytes), Err(DecodeError::SizeOverflow));
    } else {
        assert_eq!(decode(&bytes), Ok(NetMessage::Stream(Some((vec![], usize::MAX, 1)))));
    }
}
