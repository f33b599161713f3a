//! Streaming video to every known peer, one frame per quantum.

use crate::action::{duration_of_millis, Outcome, OutcomeView, Processing, Request, Step, StepView};
use crate::commands::{ActionRequest, ActionRequestView, CommandError};
use crate::message::{NetMessage, NetMessageView};
use crate::state::{State, StateView, SystemMessageType};
use std::time::Duration;
use vstd::prelude::*;

verus! {

/// Delay between two frames, in milliseconds: about 60 frames a second.
pub const FRAME_DELAY: u64 = 16;

/// The command that starts the video stream: `startstream`.
#[derive(Clone, Copy, Debug, PartialEq, Eq, Structural)]
pub struct SendStreamCommand;

impl SendStreamCommand {
    /// The verb of the command.
    pub fn name(&self) -> (name: &'static str)
        ensures
            name@ == "startstream"@,
    {
        "startstream"
    }

    /// Asks for the video stream, whatever the parameters.
    pub fn parse_params(&self, params: Vec<String>) -> (request: Result<
        ActionRequest,
        CommandError,
    >)
        ensures
            request matches Ok(request) && request@ == ActionRequestView::SendStream,
    {
        Ok(ActionRequest::SendStream)
    }
}

/// The command that stops the video stream: `stopstream`.
#[derive(Clone, Copy, Debug, PartialEq, Eq, Structural)]
pub struct StopStreamCommand;

impl StopStreamCommand {
    /// The verb of the command.
    pub fn name(&self) -> (name: &'static str)
        ensures
            name@ == "stopstream"@,
    {
        "stopstream"
    }

    /// Asks for the video stream to stop, whatever the parameters.
    pub fn parse_params(&self, params: Vec<String>) -> (request: Result<
        ActionRequest,
        CommandError,
    >)
        ensures
            request matches Ok(request) && request@ == ActionRequestView::StopStream,
    {
        Ok(ActionRequest::StopStream)
    }
}

/// Asks the running video stream to stop.
#[derive(Clone, Copy, Debug, PartialEq, Eq, Structural)]
pub struct StopStream {}

impl StopStream {
    /// The state after the quantum: the request to stop is raised.
    pub open spec fn state_after(state: StateView) -> StateView {
        StateView { stop_stream: true, ..state }
    }

    /// What the quantum decides: the action is done and sends nothing.
    pub open spec fn step_of() -> StepView {
        StepView { processing: Processing::Completed, broadcast: None }
    }

    /// Raises the request to stop the video stream.
    pub fn process(&mut self, state: &mut State) -> (step: Step)
        requires
            old(state).wf(),
        ensures
            final(state).wf(),
            *final(self) == *old(self),
            final(state)@ == Self::state_after(old(state)@),
            step@ == Self::step_of(),
    {
        state.set_stop_stream(true);
        Step { processing: Processing::Completed, broadcast: None }
    }
}

/// A running video stream of frames of a fixed size.
#[derive(Clone, Copy, Debug, PartialEq, Eq, Structural)]
pub struct SendStream {
    /// Width of a frame in pixels.
    pub width: usize,
    /// Height of a frame in pixels.
    pub height: usize,
}

impl SendStream {
    /// A stream of frames of the given size.
    pub fn new(width: usize, height: usize) -> (action: SendStream)
        ensures
            action == (SendStream { width, height }),
    {
        SendStream { width, height }
    }

    /// The outside work that the next quantum needs: a frame, unless the
    /// stream is to stop.
    pub fn request(&self, state: &State) -> (request: Request)
        ensures
            request == if state@.stop_stream {
                Request::Nothing
            } else {
                Request::CaptureFrame
            },
    {
        if state.stop_stream() {
            Request::Nothing
        } else {
            Request::CaptureFrame
        }
    }

    /// The state after a quantum. Asked to stop, the stream clears the
    /// request; where no frame could be captured, the failure is reported.
    pub open spec fn state_after(
        state: StateView,
        outcome: OutcomeView,
        stamps: StateView,
    ) -> StateView {
        if state.stop_stream {
            StateView { stop_stream: false, ..state }
        } else {
            match outcome {
                OutcomeView::Data(_) => state,
                OutcomeView::Failed(error) => state.reporting(
                    stamps,
                    error,
                    SystemMessageType::Error,
                ),
            }
        }
    }

    /// What a quantum decides. Asked to stop, or where no frame could be
    /// captured, the stream tells the peers that it has ended and is done;
    /// otherwise it sends the frame and asks to be resumed.
    pub open spec fn step_of(&self, state: StateView, outcome: OutcomeView) -> StepView {
        match outcome {
            OutcomeView::Data(data) if !state.stop_stream => StepView {
                processing: Processing::Partial(duration_of_millis(FRAME_DELAY)),
                broadcast: Some(NetMessageView::Stream(Some((data, self.width, self.height)))),
            },
            _ => StepView {
                processing: Processing::Completed,
                broadcast: Some(NetMessageView::Stream(None)),
            },
        }
    }

    /// Sends the frame that was captured, or ends the stream.
    pub fn process(&mut self, state: &mut State, outcome: Outcome) -> (step: Step)
        requires
            old(state).wf(),
        ensures
            final(state).wf(),
            *final(self) == *old(self),
            final(state)@ == Self::state_after(old(state)@, outcome@, final(state)@),
            step@ == old(self).step_of(old(state)@, outcome@),
    {
        if state.stop_stream() {
            state.set_stop_stream(false);
            return Step {
                processing: Processing::Completed,
                broadcast: Some(NetMessage::Stream(None)),
            };
        }
        match outcome {
            Outcome::Data(data) => Step {
                processing: Processing::Partial(Duration::from_millis(FRAME_DELAY)),
                broadcast: Some(NetMessage::Stream(Some((data, self.width, self.height)))),
            },
            Outcome::Failed(error) => {
                state.add_system_error_message(error);
                Step {
                    processing: Processing::Completed,
                    broadcast: Some(NetMessage::Stream(None)),
                }
            },
        }
    }
}

} // verus!
