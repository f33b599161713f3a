//! Streaming audio to every known peer, one buffer of samples per quantum.

use crate::action::{duration_of_millis, Outcome, OutcomeView, Processing, Request, Step, StepView};
use crate::commands::{ActionRequest, ActionRequestView, CommandError};
use crate::message::{NetMessage, NetMessageView};
use crate::state::{State, StateView, SystemMessageType};
use std::time::Duration;
use vstd::prelude::*;

verus! {

/// Delay between two buffers of samples, in milliseconds.
pub const SAMPLES_DELAY: u64 = 10;

/// The command that starts the audio stream: `sendaudio`.
#[derive(Clone, Copy, Debug, PartialEq, Eq, Structural)]
pub struct SendAudioCommand;

impl SendAudioCommand {
    /// The verb of the command.
    pub fn name(&self) -> (name: &'static str)
        ensures
            name@ == "sendaudio"@,
    {
        "sendaudio"
    }

    /// Asks for the audio stream, whatever the parameters.
    pub fn parse_params(&self, params: Vec<String>) -> (request: Result<
        ActionRequest,
        CommandError,
    >)
        ensures
            request matches Ok(request) && request@ == ActionRequestView::SendAudio,
    {
        Ok(ActionRequest::SendAudio)
    }
}

/// A running audio stream.
#[derive(Clone, Copy, Debug, PartialEq, Eq, Structural)]
pub struct SendAudio {}

impl SendAudio {
    /// An audio stream.
    pub fn new() -> SendAudio {
        SendAudio {  }
    }

    /// The outside work that the next quantum needs: the samples recorded
    /// since the last one, unless the stream is to stop.
    pub fn request(&self, state: &State) -> (request: Request)
        ensures
            request == if state@.stop_audio {
                Request::Nothing
            } else {
                Request::DrainAudio
            },
    {
        if state.stop_audio_requested() {
            Request::Nothing
        } else {
            Request::DrainAudio
        }
    }

    /// The state after a quantum. Asked to stop, the stream clears the
    /// request; where the recording failed, the failure is reported.
    pub open spec fn state_after(
        state: StateView,
        outcome: OutcomeView,
        stamps: StateView,
    ) -> StateView {
        if state.stop_audio {
            StateView { stop_audio: false, ..state }
        } else {
            match outcome {
                OutcomeView::Data(_) => state,
                OutcomeView::Failed(error) => state.reporting(
                    stamps,
                    error,
                    SystemMessageType::Error,
                ),
            }
        }
    }

    /// What a quantum decides. Asked to stop, or where the recording failed,
    /// the stream tells the peers that it has ended and is done; otherwise it
    /// sends the samples, even if there are none, and asks to be resumed.
    pub open spec fn step_of(state: StateView, outcome: OutcomeView) -> StepView {
        match outcome {
            OutcomeView::Data(samples) if !state.stop_audio => StepView {
                processing: Processing::Partial(duration_of_millis(SAMPLES_DELAY)),
                broadcast: Some(NetMessageView::StreamAudio(Some(samples))),
            },
            _ => StepView {
                processing: Processing::Completed,
                broadcast: Some(NetMessageView::StreamAudio(None)),
            },
        }
    }

    /// Sends the samples that were recorded, or ends the stream.
    pub fn process(&mut self, state: &mut State, outcome: Outcome) -> (step: Step)
        requires
            old(state).wf(),
        ensures
            final(state).wf(),
            *final(self) == *old(self),
            final(state)@ == Self::state_after(old(state)@, outcome@, final(state)@),
            step@ == Self::step_of(old(state)@, outcome@),
    {
        if state.stop_audio_requested() {
            state.set_stop_audio(false);
            return Step {
                processing: Processing::Completed,
                broadcast: Some(NetMessage::StreamAudio(None)),
            };
        }
        match outcome {
            Outcome::Data(samples) => Step {
                processing: Processing::Partial(Duration::from_millis(SAMPLES_DELAY)),
                broadcast: Some(NetMessage::StreamAudio(Some(samples))),
            },
            Outcome::Failed(error) => {
                state.add_system_error_message(error);
                Step {
                    processing: Processing::Completed,
                    broadcast: Some(NetMessage::StreamAudio(None)),
                }
            },
        }
    }
}

/// The command that stops the audio stream: `stopaudio`.
#[derive(Clone, Copy, Debug, PartialEq, Eq, Structural)]
pub struct StopAudioCommand;

impl StopAudioCommand {
    /// The verb of the command.
    pub fn name(&self) -> (name: &'static str)
        ensures
            name@ == "stopaudio"@,
    {
        "stopaudio"
    }

    /// Asks for the audio stream to stop, whatever the parameters.
    pub fn parse_params(&self, params: Vec<String>) -> (request: Result<
        ActionRequest,
        CommandError,
    >)
        ensures
            request matches Ok(request) && request@ == ActionRequestView::StopAudio,
    {
        Ok(ActionRequest::StopAudio)
    }
}

/// Asks the running audio stream to stop.
#[derive(Clone, Copy, Debug, PartialEq, Eq, Structural)]
pub struct StopAudioStream {}

impl StopAudioStream {
    /// The state after the quantum: the request to stop is raised.
    pub open spec fn state_after(state: StateView) -> StateView {
        StateView { stop_audio: true, ..state }
    }

    /// What the quantum decides: the action is done and sends nothing.
    pub open spec fn step_of() -> StepView {
        StepView { processing: Processing::Completed, broadcast: None }
    }

    /// Raises the request to stop the audio stream.
    pub fn process(&mut self, state: &mut State) -> (step: Step)
        requires
            old(state).wf(),
        ensures
            final(state).wf(),
            *final(self) == *old(self),
            final(state)@ == Self::state_after(old(state)@),
            step@ == Self::step_of(),
    {
        state.set_stop_audio(true);
        Step { processing: Processing::Completed, broadcast: None }
    }
}

} // verus!
