use std::time::Duration;
use termchat::action::{Action, Outcome, Processing, Request, Step};
use termchat::commands::send_audio::{SendAudio, StopAudioStream};
use termchat::commands::send_file::{SendFile, CHUNK_SIZE};
use termchat::commands::send_stream::{SendStream, StopStream};
use termchat::message::{Chunk, NetMessage};
use termchat::state::progress::ProgressState;
use termchat::state::{MessageType, State, SystemMessageType};

/// Reads `data` in blocks of `block` bytes, as a file would be read, and
/// feeds each read to the action until it is completed.
fn send(data: &[u8], block: usize) -> (State, Vec<Step>) {
    let mut state = State::new();
    let mut action = SendFile::new("f".to_string(), data.len() as u64);
    let mut steps = Vec::new();
    let mut offset = 0;
    loop {
        let end = (offset + block).min(data.len());
        let outcome = Outcome::Data(data[offset..end].to_vec());
        offset = end;
        assert!(action.check_process(&state, &outcome));
        let step = action.process(&mut state, outcome);
        let done = step.processing == Processing::Completed;
        steps.push(step);
        if done {
            return (state, steps);
        }
    }
}

fn chunks(steps: &[Step]) -> Vec<Chunk> {
    steps
        .iter()
        .map(|step| match &step.broadcast {
            Some(NetMessage::UserData(name, chunk)) => {
                assert_eq!(name, "f");
                chunk.clone()
            }
            other => panic!("unexpected broadcast {:?}", other),
        })
        .collect()
}

#[test]
fn an_empty_file_takes_one_quantum() {
    let (state, steps) = send(&[], 4);
    assert_eq!(steps.len(), 1);
    assert_eq!(steps[0].processing, Processing::Completed);
    assert_eq!(chunks(&steps), vec![Chunk::End]);
    assert_eq!(state.progress_state(0), Some(ProgressState::Completed));
    assert_eq!(state.messages().len(), 1);
}

#[test]
fn a_file_of_ten_bytes_in_blocks_of_four() {
    let data: Vec<u8> = (0..10).collect();
    let (state, steps) = send(&data, 4);
    assert_eq!(steps.len(), 4);
    assert_eq!(
        chunks(&steps),
        vec![
            Chunk::Data(vec![0, 1, 2, 3]),
            Chunk::Data(vec![4, 5, 6, 7]),
            Chunk::Data(vec![8, 9]),
            Chunk::End,
        ]
    );
    for step in &steps[..3] {
        assert_eq!(step.processing, Processing::Partial(Duration::from_millis(0)));
    }
    assert_eq!(steps[3].processing, Processing::Completed);
    assert_eq!(state.progress_state(0), Some(ProgressState::Completed));
}

#[test]
fn a_file_of_whole_blocks_takes_one_quantum_more_than_blocks() {
    let data = vec![7u8; 8];
    let (state, steps) = send(&data, 4);
    assert_eq!(steps.len(), 3);
    assert_eq!(
        chunks(&steps),
        vec![Chunk::Data(vec![7; 4]), Chunk::Data(vec![7; 4]), Chunk::End]
    );
    assert_eq!(state.progress_state(0), Some(ProgressState::Completed));
}

#[test]
fn the_number_of_quanta_follows_the_size() {
    for block in 1..7usize {
        for len in 0..30usize {
            let data = vec![1u8; len];
            let (state, steps) = send(&data, block);
            let (k, r) = (len / block, len % block);
            let expected = if r > 0 { k + 2 } else { k + 1 };
            assert_eq!(steps.len(), expected);
            let sent: usize = chunks(&steps)
                .iter()
                .map(|chunk| match chunk {
                    Chunk::Data(data) => data.len(),
                    _ => 0,
                })
                .sum();
            assert_eq!(sent, len);
            assert_eq!(state.progress_state(0), Some(ProgressState::Completed));
        }
    }
}

#[test]
fn progress_follows_the_bytes_read() {
    let mut state = State::new();
    let mut action = SendFile::new("f".to_string(), 10);
    assert_eq!(action.progress_id, None);
    action.process(&mut state, Outcome::Data(vec![0; 4]));
    assert_eq!(action.progress_id, Some(0));
    assert_eq!(state.messages()[0].user, "Sending 'f'");
    assert_eq!(state.progress_state(0), Some(ProgressState::Working(10, 4)));
    action.process(&mut state, Outcome::Data(vec![0; 4]));
    assert_eq!(state.progress_state(0), Some(ProgressState::Working(10, 8)));
    assert_eq!(state.messages().len(), 1);
}

#[test]
fn a_failed_read_ends_the_transfer() {
    let mut state = State::new();
    let mut action = SendFile::new("f".to_string(), 10);
    action.process(&mut state, Outcome::Data(vec![0; 4]));
    let step = action.process(&mut state, Outcome::Failed("disk on fire".to_string()));
    assert_eq!(
        step,
        Step {
            processing: Processing::Completed,
            broadcast: Some(NetMessage::UserData("f".to_string(), Chunk::Error)),
        }
    );
    assert_eq!(state.messages().len(), 2);
    assert_eq!(state.messages()[1].user, "Termchat: ");
    assert_eq!(
        state.messages()[1].message_type,
        MessageType::System(
            "Error sending file. error: disk on fire".to_string(),
            SystemMessageType::Error
        )
    );
    assert_eq!(state.progress_state(0), Some(ProgressState::Working(10, 4)));
}

#[test]
fn a_failed_first_read_still_logs_the_transfer() {
    let mut state = State::new();
    let mut action = SendFile::new("f".to_string(), 10);
    let step = action.process(&mut state, Outcome::Failed("gone".to_string()));
    assert_eq!(step.processing, Processing::Completed);
    assert_eq!(state.messages().len(), 2);
    assert_eq!(state.progress_state(0), Some(ProgressState::Working(10, 0)));
}

#[test]
fn two_transfers_have_their_own_progress() {
    let mut state = State::new();
    let mut first = SendFile::new("f".to_string(), 4);
    let mut second = SendFile::new("f".to_string(), 6);
    first.process(&mut state, Outcome::Data(vec![0; 2]));
    second.process(&mut state, Outcome::Data(vec![0; 6]));
    assert_eq!(state.progress_state(0), Some(ProgressState::Working(4, 2)));
    assert_eq!(state.progress_state(1), Some(ProgressState::Completed));
}

#[test]
fn a_file_is_read_in_blocks_of_the_chunk_size() {
    assert_eq!(CHUNK_SIZE, 65500);
    let action = SendFile::new("f".to_string(), 1);
    assert_eq!(action.request(), Request::ReadBlock(65500));
    assert_eq!(Action::SendFile(action).request(&State::new()), Request::ReadBlock(65500));
}

#[test]
fn an_overflowing_count_is_told_apart() {
    let mut state = State::new();
    let mut action = SendFile::new("f".to_string(), u64::MAX);
    assert!(action.check_process(&state, &Outcome::Data(vec![1])));
    state.add_progress_message("other", 0);
    let id = state.add_progress_message("f", 5);
    state.progress_message_update(id, u64::MAX);
    action.progress_id = Some(id);
    assert!(!action.check_process(&state, &Outcome::Data(vec![1])));
    assert!(action.check_process(&state, &Outcome::Data(vec![])));
    assert!(action.check_process(&state, &Outcome::Failed("x".to_string())));
    assert!(!Action::SendFile(action).check_process(&state, &Outcome::Data(vec![1])));
    assert!(Action::StopStream(StopStream {}).check_process(&state, &Outcome::Data(vec![1])));
}

#[test]
fn a_stream_sends_frame_after_frame() {
    let mut state = State::new();
    let mut stream = SendStream::new(4, 2);
    assert_eq!(stream.request(&state), Request::CaptureFrame);
    let step = stream.process(&mut state, Outcome::Data(vec![1, 2, 3, 4]));
    assert_eq!(
        step,
        Step {
            processing: Processing::Partial(Duration::from_millis(16)),
            broadcast: Some(NetMessage::Stream(Some((vec![1, 2, 3, 4], 4, 2)))),
        }
    );
    assert!(state.messages().is_empty());
}

#[test]
fn a_stream_stops_when_asked() {
    let mut state = State::new();
    let mut stream = SendStream::new(4, 2);
    let stop = StopStream {}.process(&mut state);
    assert_eq!(stop, Step { processing: Processing::Completed, broadcast: None });
    assert!(state.stop_stream());
    assert_eq!(stream.request(&state), Request::Nothing);
    let step = stream.process(&mut state, Outcome::Data(vec![]));
    assert_eq!(
        step,
        Step { processing: Processing::Completed, broadcast: Some(NetMessage::Stream(None)) }
    );
    assert!(!state.stop_stream());
    assert_eq!(stream.request(&state), Request::CaptureFrame);
}

#[test]
fn a_failed_capture_ends_the_stream() {
    let mut state = State::new();
    let mut stream = SendStream::new(4, 2);
    let step = stream.process(&mut state, Outcome::Failed("no camera".to_string()));
    assert_eq!(
        step,
        Step { processing: Processing::Completed, broadcast: Some(NetMessage::Stream(None)) }
    );
    assert_eq!(
        state.messages()[0].message_type,
        MessageType::System("no camera".to_string(), SystemMessageType::Error)
    );
}

#[test]
fn audio_sends_buffer_after_buffer() {
    let mut state = State::new();
    let mut audio = SendAudio::new();
    assert_eq!(audio.request(&state), Request::DrainAudio);
    let step = audio.process(&mut state, Outcome::Data(vec![9, 9]));
    assert_eq!(
        step,
        Step {
            processing: Processing::Partial(Duration::from_millis(10)),
            broadcast: Some(NetMessage::StreamAudio(Some(vec![9, 9]))),
        }
    );
    let idle = audio.process(&mut state, Outcome::Data(vec![]));
    assert_eq!(idle.broadcast, Some(NetMessage::StreamAudio(Some(vec![]))));
    assert_eq!(idle.processing, Processing::Partial(Duration::from_millis(10)));
}

#[test]
fn audio_stops_when_asked() {
    let mut state = State::new();
    let mut audio = SendAudio::new();
    let stop = StopAudioStream {}.process(&mut state);
    assert_eq!(stop, Step { processing: Processing::Completed, broadcast: None });
    assert!(state.stop_audio_requested());
    assert!(!state.stop_stream());
    assert_eq!(audio.request(&state), Request::Nothing);
    let step = audio.process(&mut state, Outcome::Data(vec![1]));
    assert_eq!(
        step,
        Step { processing: Processing::Completed, broadcast: Some(NetMessage::StreamAudio(None)) }
    );
    assert!(!state.stop_audio_requested());
}

#[test]
fn a_failed_recording_ends_the_audio_stream() {
    let mut state = State::new();
    let step = SendAudio::new().process(&mut state, Outcome::Failed("no mic".to_string()));
    assert_eq!(
        step,
        Step { processing: Processing::Completed, broadcast: Some(NetMessage::StreamAudio(None)) }
    );
    assert_eq!(state.messages().len(), 1);
}

#[test]
fn actions_are_dispatched_by_kind() {
    let mut state = State::new();
    let mut stop = Action::StopStream(StopStream {});
    assert_eq!(stop.request(&state), Request::Nothing);
    assert_eq!(stop.process(&mut state, Outcome::Data(vec![])).processing, Processing::Completed);
    assert!(state.stop_stream());
    let mut stream = Action::SendStream(SendStream::new(2, 2));
    assert_eq!(stream.request(&state), Request::Nothing);
    assert_eq!(
        stream.process(&mut state, Outcome::Data(vec![])).broadcast,
        Some(NetMessage::Stream(None))
    );
    let mut stop_audio = Action::StopAudio(StopAudioStream {});
    assert_eq!(stop_audio.request(&state), Request::Nothing);
    stop_audio.process(&mut state, Outcome::Data(vec![]));
    let mut audio = Action::SendAudio(SendAudio::new());
    assert_eq!(audio.request(&state), Request::Nothing);
    assert_eq!(
        audio.process(&mut state, Outcome::Data(vec![])).broadcast,
        Some(NetMessage::StreamAudio(None))
    );
    assert_eq!(audio.request(&state), Request::DrainAudio);
    let mut file = Action::SendFile(SendFile::new("f".to_string(), 0));
    assert_eq!(
        file.process(&mut state, Outcome::Data(vec![])).broadcast,
        Some(NetMessage::UserData("f".to_string(), Chunk::End))
    );
    assert_eq!(file, Action::SendFile(SendFile { file_name: "f".to_string(), file_size: 0, progress_id: Some(0) }));
}
