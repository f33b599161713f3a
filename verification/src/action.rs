//! Resumable units of deferred work. An action does one bounded quantum of
//! work at a time; what it returns says whether it is to be resumed.

use crate::commands::send_audio::{SendAudio, StopAudioStream};
use crate::commands::send_file::{SendFile, SendFileView, CHUNK_SIZE};
use crate::commands::send_stream::{SendStream, StopStream};
use crate::message::{NetMessage, NetMessageView};
use crate::state::{State, StateView};
use std::time::Duration;
use vstd::prelude::*;

verus! {

/// The span of time that `Duration::from_millis` makes of a number of
/// milliseconds.
pub uninterp spec fn duration_of_millis(count: u64) -> Duration;

/// `Duration::from_millis` depends on its argument alone.
pub assume_specification[ Duration::from_millis ](millis: u64) -> (duration: Duration)
    ensures
        duration == duration_of_millis(millis),
;

/// How a quantum of work ended.
#[derive(Debug, PartialEq, Eq)]
pub enum Processing {
    /// The action is done and can be dropped.
    Completed,
    /// The action wants to be resumed, no earlier than after the delay.
    Partial(Duration),
}

/// The outside work that the next quantum of an action needs.
#[derive(Clone, Copy, Debug, PartialEq, Eq, Structural)]
pub enum Request {
    /// No outside work.
    Nothing,
    /// Read the next block of the file, of at most so many bytes.
    ReadBlock(usize),
    /// Capture one video frame.
    CaptureFrame,
    /// Take the audio samples recorded since the last quantum.
    DrainAudio,
}

/// What the outside work for a quantum gave.
#[derive(Clone, Debug, PartialEq, Eq)]
pub enum Outcome {
    /// The bytes read or captured; none where the source is exhausted or no
    /// work was asked for.
    Data(Vec<u8>),
    /// The work failed; holds the error's text.
    Failed(String),
}

/// Mathematical model of an [`Outcome`].
pub enum OutcomeView {
    Data(Seq<u8>),
    Failed(Seq<char>),
}

impl View for Outcome {
    type V = OutcomeView;

    open spec fn view(&self) -> OutcomeView {
        match self {
            Outcome::Data(data) => OutcomeView::Data(data@),
            Outcome::Failed(error) => OutcomeView::Failed(error@),
        }
    }
}

/// What one quantum of work decided.
#[derive(Debug, PartialEq, Eq)]
pub struct Step {
    /// Whether the action is to be resumed.
    pub processing: Processing,
    /// The message to send to every known peer, if any.
    pub broadcast: Option<NetMessage>,
}

/// Mathematical model of a [`Step`].
pub struct StepView {
    pub processing: Processing,
    pub broadcast: Option<NetMessageView>,
}

impl View for Step {
    type V = StepView;

    open spec fn view(&self) -> StepView {
        StepView {
            processing: self.processing,
            broadcast: match self.broadcast {
                Some(message) => Some(message@),
                None => None,
            },
        }
    }
}

/// The actions that can be scheduled.
#[derive(Debug, PartialEq, Eq)]
pub enum Action {
    SendFile(SendFile),
    SendStream(SendStream),
    SendAudio(SendAudio),
    StopStream(StopStream),
    StopAudio(StopAudioStream),
}

/// Mathematical model of an [`Action`].
pub enum ActionView {
    SendFile(SendFileView),
    SendStream(SendStream),
    SendAudio,
    StopStream,
    StopAudio,
}

impl View for Action {
    type V = ActionView;

    open spec fn view(&self) -> ActionView {
        match self {
            Action::SendFile(action) => ActionView::SendFile(action@),
            Action::SendStream(action) => ActionView::SendStream(*action),
            Action::SendAudio(_) => ActionView::SendAudio,
            Action::StopStream(_) => ActionView::StopStream,
            Action::StopAudio(_) => ActionView::StopAudio,
        }
    }
}

impl ActionView {
    /// The outside work that the next quantum needs.
    pub open spec fn requested(self, state: StateView) -> Request {
        match self {
            ActionView::SendFile(_) => Request::ReadBlock(CHUNK_SIZE),
            ActionView::SendStream(_) => if state.stop_stream {
                Request::Nothing
            } else {
                Request::CaptureFrame
            },
            ActionView::SendAudio => if state.stop_audio {
                Request::Nothing
            } else {
                Request::DrainAudio
            },
            ActionView::StopStream => Request::Nothing,
            ActionView::StopAudio => Request::Nothing,
        }
    }

    /// Whether the next quantum can account for what `outcome` holds
    /// without overflow.
    pub open spec fn can_process(self, state: StateView, outcome: OutcomeView) -> bool {
        match (self, outcome) {
            (ActionView::SendFile(action), OutcomeView::Data(data)) => match action.progress_id {
                Some(id) => state.can_progress(id, data.len() as u64),
                None => true,
            },
            _ => true,
        }
    }

    /// The session state after the next quantum.
    pub open spec fn state_after(
        self,
        state: StateView,
        outcome: OutcomeView,
        stamps: StateView,
    ) -> StateView {
        match self {
            ActionView::SendFile(action) => action.state_after(state, outcome, stamps),
            ActionView::SendStream(_) => SendStream::state_after(state, outcome, stamps),
            ActionView::SendAudio => SendAudio::state_after(state, outcome, stamps),
            ActionView::StopStream => StopStream::state_after(state),
            ActionView::StopAudio => StopAudioStream::state_after(state),
        }
    }

    /// The action after its next quantum.
    pub open spec fn after(self, state: StateView) -> ActionView {
        match self {
            ActionView::SendFile(action) => ActionView::SendFile(action.after(state)),
            _ => self,
        }
    }

    /// What the next quantum decides.
    pub open spec fn step(self, state: StateView, outcome: OutcomeView) -> StepView {
        match self {
            ActionView::SendFile(action) => action.step_of(outcome),
            ActionView::SendStream(action) => action.step_of(state, outcome),
            ActionView::SendAudio => SendAudio::step_of(state, outcome),
            ActionView::StopStream => StopStream::step_of(),
            ActionView::StopAudio => StopAudioStream::step_of(),
        }
    }
}

impl Action {
    /// Tells whether [`ActionView::can_process`] holds.
    pub fn check_process(&self, state: &State, outcome: &Outcome) -> (ok: bool)
        requires
            state.wf(),
        ensures
            ok == self@.can_process(state@, outcome@),
    {
        match self {
            Action::SendFile(action) => action.check_process(state, outcome),
            _ => true,
        }
    }

    /// The outside work that the next quantum needs.
    pub fn request(&self, state: &State) -> (request: Request)
        ensures
            request == self@.requested(state@),
    {
        match self {
            Action::SendFile(action) => action.request(),
            Action::SendStream(action) => action.request(state),
            Action::SendAudio(action) => action.request(state),
            Action::StopStream(_) => Request::Nothing,
            Action::StopAudio(_) => Request::Nothing,
        }
    }

    /// Does one quantum of work, given what its outside work gave.
    pub fn process(&mut self, state: &mut State, outcome: Outcome) -> (step: Step)
        requires
            old(state).wf(),
            old(self)@.can_process(old(state)@, outcome@),
        ensures
            final(state).wf(),
            final(state)@ == old(self)@.state_after(old(state)@, outcome@, final(state)@),
            final(self)@ == old(self)@.after(old(state)@),
            step@ == old(self)@.step(old(state)@, outcome@),
    {
        match self {
            Action::SendFile(action) => action.process(state, outcome),
            Action::SendStream(action) => action.process(state, outcome),
            Action::SendAudio(action) => action.process(state, outcome),
            Action::StopStream(action) => action.process(state),
            Action::StopAudio(action) => action.process(state),
        }
    }
}

} // verus!
