//! The event dispatcher. Every event is routed to the part of the session
//! it concerns; what has to happen outside (sending, connecting, reading,
//! ringing the bell) is returned as a list of effects for the caller to
//! perform. The caller owns the queue: it hands the events over one by one
//! and stops when told to.

use crate::action::{
    duration_of_millis, Action, ActionView, Outcome, OutcomeView, Processing, Step,
};
use crate::commands::send_audio::{SendAudioCommand, StopAudioCommand};
use crate::commands::send_file::SendFileCommand;
use crate::commands::send_stream::{SendStreamCommand, StopStreamCommand};
use crate::commands::{
    found, is_command, is_command_line, ActionRequest, ActionRequestView, Command,
    CommandManager,
};
use crate::encoder::{decode, decoded};
use crate::message::{Chunk, ChunkView, NetMessage, NetMessageView};
use crate::state::{
    ChatMessage, CursorMovement, Endpoint, MessageType, MessageTypeView, Playback, ScrollMovement,
    State, StateView, SystemMessageType, WindowView,
};
use crate::util::{failure_report, failures, stringify_sendall_errors};
use std::time::Duration;
use vstd::prelude::*;
use vstd::string::*;

verus! {

/// What the transport tells of the network.
#[derive(Clone, Debug, PartialEq, Eq)]
pub enum NetEvent {
    /// Bytes that a peer sent.
    Message(Endpoint, Vec<u8>),
    /// A connection was made.
    AddedEndpoint(Endpoint),
    /// A connection was lost.
    RemovedEndpoint(Endpoint),
}

/// The keys that the dispatcher tells apart.
#[derive(Clone, Copy, Debug, PartialEq, Eq, Structural)]
pub enum KeyCode {
    Esc,
    Char(char),
    Enter,
    Delete,
    Backspace,
    Left,
    Right,
    Home,
    End,
    Up,
    Down,
    PageUp,
    /// Any other key.
    Other,
}

/// A key press.
#[derive(Clone, Copy, Debug, PartialEq, Eq, Structural)]
pub struct KeyEvent {
    pub code: KeyCode,
    /// Whether the control key was held.
    pub control: bool,
}

/// What the terminal tells.
#[derive(Clone, Copy, Debug, PartialEq, Eq, Structural)]
pub enum TermEvent {
    Key(KeyEvent),
    Mouse,
    Resize(u16, u16),
}

/// What the dispatcher is told, one at a time.
#[derive(Debug, PartialEq, Eq)]
pub enum Event {
    /// Something happened on the network.
    Network(NetEvent),
    /// Something happened on the terminal.
    Terminal(TermEvent),
    /// A scheduled action is due; holds what its outside work gave.
    Action(Action, Outcome),
    /// The session ends, with an error if it ends for one.
    Close(Option<String>),
    /// Answer to [`Effect::Connect`]: the user and the connection made to it,
    /// or the error's text.
    Connected(String, Result<Endpoint, String>),
    /// Answer to [`Effect::Acquire`]: the line typed and the action made of
    /// the request, or the error's text.
    Acquired(String, Result<Action, String>),
    /// Outside work failed; holds the error's text.
    Failed(String),
    /// Deliveries of a broadcast failed; holds, for each, the recipient and
    /// the error's text.
    Undelivered(Vec<(String, String)>),
}

/// Mathematical model of a [`NetEvent`].
pub enum NetEventView {
    Message(Endpoint, Seq<u8>),
    AddedEndpoint(Endpoint),
    RemovedEndpoint(Endpoint),
}

impl View for NetEvent {
    type V = NetEventView;

    open spec fn view(&self) -> NetEventView {
        match self {
            NetEvent::Message(endpoint, bytes) => NetEventView::Message(*endpoint, bytes@),
            NetEvent::AddedEndpoint(endpoint) => NetEventView::AddedEndpoint(*endpoint),
            NetEvent::RemovedEndpoint(endpoint) => NetEventView::RemovedEndpoint(*endpoint),
        }
    }
}

/// Mathematical model of an [`Event`].
pub enum EventView {
    Network(NetEventView),
    Terminal(TermEvent),
    Action(ActionView, OutcomeView),
    Close(Option<Seq<char>>),
    Connected(Seq<char>, Result<Endpoint, Seq<char>>),
    Acquired(Seq<char>, Result<ActionView, Seq<char>>),
    Failed(Seq<char>),
    Undelivered(Seq<(Seq<char>, Seq<char>)>),
}

impl View for Event {
    type V = EventView;

    open spec fn view(&self) -> EventView {
        match self {
            Event::Network(event) => EventView::Network(event@),
            Event::Terminal(event) => EventView::Terminal(*event),
            Event::Action(action, outcome) => EventView::Action(action@, outcome@),
            Event::Close(Some(error)) => EventView::Close(Some(error@)),
            Event::Close(None) => EventView::Close(None),
            Event::Connected(user, Ok(endpoint)) => EventView::Connected(user@, Ok(*endpoint)),
            Event::Connected(user, Err(error)) => EventView::Connected(user@, Err(error@)),
            Event::Acquired(input, Ok(action)) => EventView::Acquired(input@, Ok(action@)),
            Event::Acquired(input, Err(error)) => EventView::Acquired(input@, Err(error@)),
            Event::Failed(error) => EventView::Failed(error@),
            Event::Undelivered(errors) => EventView::Undelivered(failures(errors@)),
        }
    }
}

/// What the caller has to do for the dispatcher.
#[derive(Debug, PartialEq, Eq)]
pub enum Effect {
    /// Send the message to one peer.
    Send(Endpoint, NetMessage),
    /// Send the message to each of these peers; a failure with one does not
    /// keep the message from the others.
    Broadcast(Vec<Endpoint>, NetMessage),
    /// Connect to the server of `user`, at the address from which `via`
    /// announced it and at this port.
    Connect { user: String, via: Endpoint, port: u16 },
    /// Append the data to the file of this name received from `user`.
    Store { user: String, file_name: String, data: Vec<u8> },
    /// Acquire what the request needs and make the action.
    Acquire { request: ActionRequest, input: String },
    /// Hand the action back when it is due: no earlier than after the delay.
    Schedule(Action, Duration),
    /// Play the samples.
    Play(Playback),
    /// Stop the audio playback.
    Silence,
    /// Ring the terminal bell.
    Bell,
    /// Queue the end of the session, ahead of all other events.
    Close,
}

/// Mathematical model of an [`Effect`].
pub enum EffectView {
    Send(Endpoint, NetMessageView),
    Broadcast(Set<Endpoint>, NetMessageView),
    Connect { user: Seq<char>, via: Endpoint, port: u16 },
    Store { user: Seq<char>, file_name: Seq<char>, data: Seq<u8> },
    Acquire { request: ActionRequestView, input: Seq<char> },
    Schedule(ActionView, Duration),
    Play { start: bool, samples: Seq<u8> },
    Silence,
    Bell,
    Close,
}

impl View for Effect {
    type V = EffectView;

    open spec fn view(&self) -> EffectView {
        match self {
            Effect::Send(endpoint, message) => EffectView::Send(*endpoint, message@),
            Effect::Broadcast(endpoints, message) => EffectView::Broadcast(
                endpoints@.to_set(),
                message@,
            ),
            Effect::Connect { user, via, port } => EffectView::Connect {
                user: user@,
                via: *via,
                port: *port,
            },
            Effect::Store { user, file_name, data } => EffectView::Store {
                user: user@,
                file_name: file_name@,
                data: data@,
            },
            Effect::Acquire { request, input } => EffectView::Acquire {
                request: request@,
                input: input@,
            },
            Effect::Schedule(action, delay) => EffectView::Schedule(action@, *delay),
            Effect::Play(playback) => EffectView::Play {
                start: playback.start,
                samples: playback.samples@,
            },
            Effect::Silence => EffectView::Silence,
            Effect::Bell => EffectView::Bell,
            Effect::Close => EffectView::Close,
        }
    }
}

impl Effect {
    /// No peer is named twice in a broadcast.
    pub open spec fn wf(&self) -> bool {
        self matches Effect::Broadcast(endpoints, _) ==> endpoints@.no_duplicates()
    }
}

/// The models of a list of effects.
pub open spec fn effects_of(effects: Seq<Effect>) -> Seq<EffectView> {
    effects.map_values(|e: Effect| e@)
}

/// Whether the caller goes on or stops.
#[derive(Debug, PartialEq, Eq)]
pub enum Control {
    /// Render, then hand over the next event.
    Continue,
    /// Stop, with this error if there is one.
    Stop(Option<String>),
}

/// Mathematical model of a [`Control`].
pub enum ControlView {
    Continue,
    Stop(Option<Seq<char>>),
}

impl View for Control {
    type V = ControlView;

    open spec fn view(&self) -> ControlView {
        match self {
            Control::Continue => ControlView::Continue,
            Control::Stop(Some(error)) => ControlView::Stop(Some(error@)),
            Control::Stop(None) => ControlView::Stop(None),
        }
    }
}

/// What the dispatcher answers to an event.
#[derive(Debug, PartialEq, Eq)]
pub struct Reaction {
    /// What the caller has to do, in this order.
    pub effects: Vec<Effect>,
    /// Whether the caller goes on.
    pub control: Control,
}

/// The effect of ringing the bell, where the bell is on.
pub open spec fn bell(on: bool) -> Seq<EffectView> {
    if on {
        seq![EffectView::Bell]
    } else {
        Seq::empty()
    }
}

/// What the session looks like to the dispatcher's contracts.
pub struct ApplicationView {
    /// Name of the local user.
    pub user_name: Seq<char>,
    /// Whether the bell rings.
    pub terminal_bell: bool,
    /// The session state.
    pub state: StateView,
    /// The commands that are registered.
    pub commands: Set<Command>,
}

impl ApplicationView {
    /// The same session, with another state.
    pub open spec fn with_state(self, state: StateView) -> ApplicationView {
        ApplicationView { state, ..self }
    }

    /// Label under which the local user's own lines are logged.
    pub open spec fn own_label(self) -> Seq<char> {
        self.user_name + " (me)"@
    }

    /// Whether a name is that of the local user or of a connected peer.
    pub open spec fn recognizes(self, user: Seq<char>) -> bool {
        user == self.user_name || self.state.has_user_named(user)
    }

    /// Whether `action` is a stream of a kind of which one is scheduled
    /// already.
    pub open spec fn duplicates(self, action: ActionView) -> bool {
        match action {
            ActionView::SendStream(_) => self.state.streaming,
            ActionView::SendAudio => self.state.recording,
            _ => false,
        }
    }

    /// The state after `action` was put on the schedule.
    pub open spec fn scheduling(state: StateView, action: ActionView) -> StateView {
        match action {
            ActionView::SendStream(_) => StateView { streaming: true, ..state },
            ActionView::SendAudio => StateView { recording: true, ..state },
            _ => state,
        }
    }

    /// The state after `action` left the schedule.
    pub open spec fn retiring(state: StateView, action: ActionView) -> StateView {
        match action {
            ActionView::SendStream(_) => StateView { streaming: false, ..state },
            ActionView::SendAudio => StateView { recording: false, ..state },
            _ => state,
        }
    }

    /// The text that tells the user that a stream of this kind runs already.
    pub open spec fn duplicate_text(action: ActionView) -> Seq<char> {
        match action {
            ActionView::SendAudio => "The audio stream is already running"@,
            _ => "The video stream is already running"@,
        }
    }

    /// The state after a quantum of work of `action`: what the action makes
    /// of it, and the action off the schedule once it is completed.
    pub open spec fn action_state(
        self,
        action: ActionView,
        outcome: OutcomeView,
        stamps: StateView,
    ) -> StateView {
        let state = action.state_after(self.state, outcome, stamps);
        match action.step(self.state, outcome).processing {
            Processing::Completed => Self::retiring(state, action),
            Processing::Partial(_) => state,
        }
    }

    /// The state after an action was acquired for the line `input`: the
    /// line is logged and the action scheduled, unless a stream of its kind
    /// is scheduled already, which is reported.
    pub open spec fn acquired_state(
        self,
        input: Seq<char>,
        action: ActionView,
        stamps: StateView,
    ) -> StateView {
        if self.duplicates(action) {
            self.state.reporting(stamps, Self::duplicate_text(action), SystemMessageType::Error)
        } else {
            Self::scheduling(
                self.state.logging(stamps, self.own_label(), MessageTypeView::Text(input)),
                action,
            )
        }
    }

    /// The effects of an action acquired for the line `input`: the line
    /// goes to every known peer and the action on the schedule, unless a
    /// stream of its kind is scheduled already.
    pub open spec fn acquired_effects(self, input: Seq<char>, action: ActionView) -> Seq<
        EffectView,
    > {
        if self.duplicates(action) {
            Seq::empty()
        } else {
            seq![
                EffectView::Broadcast(self.state.users.dom(), NetMessageView::UserMessage(input)),
                EffectView::Schedule(action, duration_of_millis(0)),
            ]
        }
    }

    /// Whether a frame holds as many bytes as its size asks for: one pixel
    /// of three bytes for every two pixels of the picture.
    pub open spec fn frame_fits(data: Seq<u8>, width: usize, height: usize) -> bool {
        data.len() == ((width * height) / 2) * 3
    }

    /// The state after a message from the peer at `endpoint`.
    pub open spec fn message_state(
        self,
        endpoint: Endpoint,
        message: NetMessageView,
        stamps: StateView,
    ) -> StateView {
        let state = self.state;
        match message {
            NetMessageView::HelloLan(_, _) => state,
            NetMessageView::HelloUser(user) => state.with_user(stamps, endpoint, user),
            NetMessageView::UserMessage(content) => if state.users.contains_key(endpoint) {
                state.logging(stamps, state.users[endpoint], MessageTypeView::Text(content))
            } else {
                state
            },
            NetMessageView::UserData(file_name, chunk) => if state.users.contains_key(endpoint) {
                match chunk {
                    ChunkView::Error => state.reporting(
                        stamps,
                        "'"@ + state.users[endpoint] + "' had an error while sending '"@
                            + file_name + "'"@,
                        SystemMessageType::Error,
                    ),
                    ChunkView::End => state.reporting(
                        stamps,
                        "Successfully received file '"@ + file_name + "' from user '"@
                            + state.users[endpoint] + "'!"@,
                        SystemMessageType::Info,
                    ),
                    ChunkView::Data(_) => state,
                }
            } else {
                state
            },
            NetMessageView::Stream(Some((data, width, height))) => if Self::frame_fits(
                data,
                width,
                height,
            ) {
                StateView {
                    windows: state.windows.insert(endpoint, WindowView { data, width, height }),
                    ..state
                }
            } else {
                StateView { windows: state.windows.remove(endpoint), ..state }
            },
            NetMessageView::Stream(None) => StateView {
                windows: state.windows.remove(endpoint),
                ..state
            },
            NetMessageView::StreamAudio(Some(_)) => StateView {
                audio: Some(
                    match state.audio {
                        Some(users) => users.insert(endpoint),
                        None => Set::<Endpoint>::empty().insert(endpoint),
                    },
                ),
                ..state
            },
            NetMessageView::StreamAudio(None) => StateView {
                audio: match state.audio {
                    Some(users) => if users.remove(endpoint) == Set::<Endpoint>::empty() {
                        None
                    } else {
                        Some(users.remove(endpoint))
                    },
                    None => None,
                },
                ..state
            },
        }
    }

    /// The effects of a message from the peer at `endpoint`.
    pub open spec fn message_effects(self, endpoint: Endpoint, message: NetMessageView) -> Seq<
        EffectView,
    > {
        let state = self.state;
        match message {
            NetMessageView::HelloLan(user, port) => if self.recognizes(user) {
                Seq::empty()
            } else {
                seq![EffectView::Connect { user, via: endpoint, port }]
            },
            NetMessageView::HelloUser(_) => bell(self.terminal_bell),
            NetMessageView::UserMessage(_) => if state.users.contains_key(endpoint) {
                bell(self.terminal_bell)
            } else {
                Seq::empty()
            },
            NetMessageView::UserData(file_name, chunk) => if state.users.contains_key(endpoint) {
                match chunk {
                    ChunkView::Error => Seq::empty(),
                    ChunkView::End => bell(self.terminal_bell),
                    ChunkView::Data(data) => seq![
                        EffectView::Store { user: state.users[endpoint], file_name, data },
                    ],
                }
            } else {
                Seq::empty()
            },
            NetMessageView::Stream(_) => Seq::empty(),
            NetMessageView::StreamAudio(Some(samples)) => seq![
                EffectView::Play { start: state.audio is None, samples },
            ],
            NetMessageView::StreamAudio(None) => if state.audio matches Some(users)
                && users.remove(endpoint) == Set::<Endpoint>::empty() {
                seq![EffectView::Silence]
            } else {
                Seq::empty()
            },
        }
    }

    /// The state after the line `input` was entered.
    pub open spec fn line_state(self, input: Seq<char>, stamps: StateView) -> StateView {
        let state = self.state;
        match found(self.commands, input) {
            Some(Ok(_)) => state,
            Some(Err(e)) => state.reporting(stamps, e.text(), SystemMessageType::Error),
            None => if is_command(input) {
                state.reporting(
                    stamps,
                    "This command doesn't exists"@,
                    SystemMessageType::Error,
                )
            } else {
                state.logging(stamps, self.own_label(), MessageTypeView::Text(input))
            },
        }
    }

    /// The effects of entering the line `input`.
    pub open spec fn line_effects(self, input: Seq<char>) -> Seq<EffectView> {
        match found(self.commands, input) {
            Some(Ok(request)) => seq![EffectView::Acquire { request, input }],
            Some(Err(_)) => Seq::empty(),
            None => if is_command(input) {
                Seq::empty()
            } else {
                seq![
                    EffectView::Broadcast(self.state.users.dom(), NetMessageView::UserMessage(input)),
                ]
            },
        }
    }

    /// The state after a key was pressed.
    pub open spec fn key_state(self, key: KeyEvent, stamps: StateView) -> StateView {
        let state = self.state;
        match key.code {
            KeyCode::Esc => state,
            KeyCode::Char(character) => if character == 'c' && key.control {
                state
            } else {
                StateView {
                    input: state.input.insert(state.cursor as int, character),
                    cursor: (state.cursor + 1) as usize,
                    ..state
                }
            },
            KeyCode::Enter => if state.input.len() > 0 {
                self.with_state(StateView { input: Seq::empty(), cursor: 0, ..state }).line_state(
                    state.input,
                    stamps,
                )
            } else {
                StateView { input: Seq::empty(), cursor: 0, ..state }
            },
            KeyCode::Delete => if state.cursor < state.input.len() {
                StateView { input: state.input.remove(state.cursor as int), ..state }
            } else {
                state
            },
            KeyCode::Backspace => if state.cursor > 0 {
                StateView {
                    input: state.input.remove(state.cursor - 1),
                    cursor: (state.cursor - 1) as usize,
                    ..state
                }
            } else {
                state
            },
            KeyCode::Left => StateView {
                cursor: if state.cursor > 0 {
                    (state.cursor - 1) as usize
                } else {
                    0
                },
                ..state
            },
            KeyCode::Right => StateView {
                cursor: if state.cursor < state.input.len() {
                    (state.cursor + 1) as usize
                } else {
                    state.cursor
                },
                ..state
            },
            KeyCode::Home => StateView { cursor: 0, ..state },
            KeyCode::End => StateView { cursor: state.input.len() as usize, ..state },
            KeyCode::Up => StateView {
                scroll: if state.scroll > 0 {
                    (state.scroll - 1) as usize
                } else {
                    0
                },
                ..state
            },
            KeyCode::Down => StateView { scroll: (state.scroll + 1) as usize, ..state },
            KeyCode::PageUp => state,
            KeyCode::Other => state,
        }
    }

    /// The effects of a key press.
    pub open spec fn key_effects(self, key: KeyEvent) -> Seq<EffectView> {
        match key.code {
            KeyCode::Esc => seq![EffectView::Close],
            KeyCode::Char(character) => if character == 'c' && key.control {
                seq![EffectView::Close]
            } else {
                Seq::empty()
            },
            KeyCode::Enter => if self.state.input.len() > 0 {
                self.line_effects(self.state.input)
            } else {
                Seq::empty()
            },
            _ => Seq::empty(),
        }
    }

    /// The effects that follow a quantum of work of an action: the
    /// broadcast it asked for, then its return to the schedule unless it is
    /// completed.
    pub open spec fn step_effects(
        self,
        action: ActionView,
        processing: Processing,
        broadcast: Option<NetMessageView>,
    ) -> Seq<EffectView> {
        let sent = match broadcast {
            Some(message) => seq![EffectView::Broadcast(self.state.users.dom(), message)],
            None => Seq::empty(),
        };
        match processing {
            Processing::Completed => sent,
            Processing::Partial(delay) => sent.push(EffectView::Schedule(action, delay)),
        }
    }

    /// The effects of a quantum of work of `action`.
    pub open spec fn action_effects(self, action: ActionView, outcome: OutcomeView) -> Seq<
        EffectView,
    > {
        let step = action.step(self.state, outcome);
        self.step_effects(action.after(self.state), step.processing, step.broadcast)
    }

    /// The state after what the network told.
    pub open spec fn net_state(self, event: NetEventView, stamps: StateView) -> StateView {
        match event {
            NetEventView::Message(endpoint, bytes) => match decoded(bytes) {
                Ok(message) => self.message_state(endpoint, message, stamps),
                Err(_) => self.state,
            },
            NetEventView::AddedEndpoint(_) => self.state,
            NetEventView::RemovedEndpoint(endpoint) => self.state.without_user(stamps, endpoint),
        }
    }

    /// The effects of what the network told. Bytes that are no message are
    /// dropped.
    pub open spec fn net_effects(self, event: NetEventView) -> Seq<EffectView> {
        match event {
            NetEventView::Message(endpoint, bytes) => match decoded(bytes) {
                Ok(message) => self.message_effects(endpoint, message),
                Err(_) => Seq::empty(),
            },
            NetEventView::AddedEndpoint(_) => Seq::empty(),
            NetEventView::RemovedEndpoint(_) => bell(self.terminal_bell),
        }
    }

    /// The state after what the terminal told.
    pub open spec fn term_state(self, event: TermEvent, stamps: StateView) -> StateView {
        match event {
            TermEvent::Key(key) => self.key_state(key, stamps),
            _ => self.state,
        }
    }

    /// The effects of what the terminal told.
    pub open spec fn term_effects(self, event: TermEvent) -> Seq<EffectView> {
        match event {
            TermEvent::Key(key) => self.key_effects(key),
            _ => Seq::empty(),
        }
    }

    /// Whether the event can be handled without overflow: a new user still
    /// gets a number, the view can still scroll down, the bytes
    /// transferred still fit their counter.
    pub open spec fn accepts(self, event: EventView) -> bool {
        match event {
            EventView::Network(NetEventView::Message(_, bytes)) => decoded(bytes) matches Ok(
                NetMessageView::HelloUser(_),
            ) ==> self.state.next_user_id < usize::MAX,
            EventView::Terminal(TermEvent::Key(key)) => key.code == KeyCode::Down
                ==> self.state.scroll < usize::MAX,
            EventView::Action(action, outcome) => action.can_process(self.state, outcome),
            EventView::Connected(_, Ok(_)) => self.state.next_user_id < usize::MAX,
            _ => true,
        }
    }

    /// The state after an event.
    pub open spec fn event_state(self, event: EventView, stamps: StateView) -> StateView {
        match event {
            EventView::Network(event) => self.net_state(event, stamps),
            EventView::Terminal(event) => self.term_state(event, stamps),
            EventView::Action(action, outcome) => self.action_state(action, outcome, stamps),
            EventView::Close(_) => self.state,
            EventView::Connected(user, Ok(endpoint)) => self.state.with_user(
                stamps,
                endpoint,
                user,
            ),
            EventView::Connected(_, Err(error)) => self.state.reporting(
                stamps,
                error,
                SystemMessageType::Error,
            ),
            EventView::Acquired(input, Ok(action)) => self.acquired_state(input, action, stamps),
            EventView::Acquired(_, Err(error)) => self.state.reporting(
                stamps,
                error,
                SystemMessageType::Error,
            ),
            EventView::Failed(error) => self.state.reporting(
                stamps,
                error,
                SystemMessageType::Error,
            ),
            EventView::Undelivered(errors) => if errors.len() > 0 {
                self.state.reporting(stamps, failure_report(errors), SystemMessageType::Error)
            } else {
                self.state
            },
        }
    }

    /// What the caller has to do after an event.
    pub open spec fn event_effects(self, event: EventView) -> Seq<EffectView> {
        match event {
            EventView::Network(event) => self.net_effects(event),
            EventView::Terminal(event) => self.term_effects(event),
            EventView::Action(action, outcome) => self.action_effects(action, outcome),
            EventView::Connected(_, Ok(endpoint)) => seq![
                EffectView::Send(endpoint, NetMessageView::HelloUser(self.user_name)),
            ],
            EventView::Acquired(input, Ok(action)) => self.acquired_effects(input, action),
            _ => Seq::empty(),
        }
    }

    /// Whether the caller goes on after an event: it stops at `Close`, with
    /// the error that the event holds.
    pub open spec fn event_control(event: EventView) -> ControlView {
        match event {
            EventView::Close(error) => ControlView::Stop(error),
            _ => ControlView::Continue,
        }
    }
}

/// An event that ends the session stops the caller at once and hands it
/// the error: nothing is sent, no action is resumed and the state stays as
/// it is, however many actions wait to be resumed.
pub proof fn lemma_close_stops(app: ApplicationView, error: Option<Seq<char>>, stamps: StateView)
    ensures
        app.accepts(EventView::Close(error)),
        app.event_state(EventView::Close(error), stamps) == app.state,
        app.event_effects(EventView::Close(error)) == Seq::<EffectView>::empty(),
        ApplicationView::event_control(EventView::Close(error)) == ControlView::Stop(error),
{
}

/// Only an event that ends the session stops the caller.
pub proof fn lemma_only_close_stops(event: EventView)
    ensures
        ApplicationView::event_control(event) is Stop <==> event is Close,
{
}

/// The dispatcher and all it owns.
pub struct Application {
    user_name: String,
    terminal_bell: bool,
    state: State,
    commands: CommandManager,
}

impl View for Application {
    type V = ApplicationView;

    closed spec fn view(&self) -> ApplicationView {
        ApplicationView {
            user_name: self.user_name@,
            terminal_bell: self.terminal_bell,
            state: self.state@,
            commands: self.commands@,
        }
    }
}

/// The commands that every session knows.
pub open spec fn standard_commands() -> Set<Command> {
    Set::<Command>::empty().insert(Command::SendFile(SendFileCommand)).insert(
        Command::SendStream(SendStreamCommand),
    ).insert(Command::StopStream(StopStreamCommand)).insert(
        Command::SendAudio(SendAudioCommand),
    ).insert(Command::StopAudio(StopAudioCommand))
}

impl Application {
    /// The invariant of the dispatcher: that of its state.
    pub open spec fn wf(&self) -> bool {
        self@.state.wf()
    }

    /// A session that has just begun, for the user of the given name.
    pub fn new(user_name: String, terminal_bell: bool) -> (app: Application)
        ensures
            app.wf(),
            app@ == (ApplicationView {
                user_name: user_name@,
                terminal_bell,
                state: StateView::initial(),
                commands: standard_commands(),
            }),
    {
        let commands = CommandManager::new().with(Command::SendFile(SendFileCommand)).with(
            Command::SendStream(SendStreamCommand),
        ).with(Command::StopStream(StopStreamCommand)).with(
            Command::SendAudio(SendAudioCommand),
        ).with(Command::StopAudio(StopAudioCommand));
        Application { user_name, terminal_bell, state: State::new(), commands }
    }

    /// The session state, for the renderer.
    pub fn state(&self) -> (state: &State)
        ensures
            state@ == self@.state,
    {
        &self.state
    }

    /// Name of the local user.
    pub fn user_name(&self) -> (name: &String)
        ensures
            name@ == self@.user_name,
    {
        &self.user_name
    }

    /// The effect of ringing the bell, where the bell is on.
    pub fn righ_the_bell(&self) -> (effects: Vec<Effect>)
        ensures
            effects_of(effects@) == bell(self@.terminal_bell),
            all_wf(effects@),
    {
        if self.terminal_bell {
            one(Effect::Bell)
        } else {
            none()
        }
    }

    /// The effect of sending `message` to every known peer.
    fn broadcast(&self, message: NetMessage) -> (effect: Effect)
        requires
            self.wf(),
        ensures
            effect@ == EffectView::Broadcast(self@.state.users.dom(), message@),
            effect.wf(),
    {
        Effect::Broadcast(self.state.all_user_endpoints(), message)
    }

    /// Handles a message from the peer at `endpoint`.
    ///
    /// An announcement under a name that is neither the local user's nor a
    /// connected peer's asks for a connection to the announcer; under a
    /// recognized name it is ignored. A greeting registers the peer. Text and
    /// file chunks count only from registered peers: text is logged, the end
    /// or failure of a transfer is reported, data is to be stored. A frame
    /// of the right size is shown in the peer's window, anything else closes
    /// the window. Audio samples are to be played; the end of an audio
    /// stream stops playback when the last peer heard leaves.
    pub fn process_network_message(&mut self, endpoint: Endpoint, message: NetMessage) -> (effects:
        Vec<Effect>)
        requires
            old(self).wf(),
            message is HelloUser ==> old(self)@.state.next_user_id < usize::MAX,
        ensures
            final(self).wf(),
            final(self)@ == old(self)@.with_state(
                old(self)@.message_state(endpoint, message@, final(self)@.state),
            ),
            effects_of(effects@) == old(self)@.message_effects(endpoint, message@),
            all_wf(effects@),
    {
        match message {
            NetMessage::HelloLan(user, server_port) => {
                if user == self.user_name || self.state.has_user_named(user.as_str()) {
                    none()
                } else {
                    one(Effect::Connect { user, via: endpoint, port: server_port })
                }
            },
            NetMessage::HelloUser(user) => {
                self.state.connected_user(endpoint, user.as_str());
                self.righ_the_bell()
            },
            NetMessage::UserMessage(content) => {
                let author = match self.state.user_name(endpoint) {
                    Some(user) => Some(user.clone()),
                    None => None,
                };
                match author {
                    Some(user) => {
                        let message = ChatMessage::new(user, MessageType::Text(content));
                        self.state.add_message(message);
                        proof {
                            let expected = old(self)@.message_state(
                                endpoint,
                                NetMessageView::UserMessage(content@),
                                self.state@,
                            );
                            assert(self.state@.log =~= expected.log);
                        }
                        self.righ_the_bell()
                    },
                    None => none(),
                }
            },
            NetMessage::UserData(file_name, chunk) => {
                let author = match self.state.user_name(endpoint) {
                    Some(user) => Some(user.clone()),
                    None => None,
                };
                match author {
                    Some(user) => match chunk {
                        Chunk::Error => {
                            let mut text = "'".to_owned();
                            text.append(user.as_str());
                            text.append("' had an error while sending '");
                            text.append(file_name.as_str());
                            text.append("'");
                            self.state.add_system_error_message(text);
                            none()
                        },
                        Chunk::End => {
                            let mut text = "Successfully received file '".to_owned();
                            text.append(file_name.as_str());
                            text.append("' from user '");
                            text.append(user.as_str());
                            text.append("'!");
                            self.state.add_system_info_message(text);
                            self.righ_the_bell()
                        },
                        Chunk::Data(data) => one(Effect::Store { user, file_name, data }),
                    },
                    None => none(),
                }
            },
            NetMessage::Stream(frame) => {
                match frame {
                    Some((data, width, height)) => {
                        assert((width as u128) * (height as u128) <= 0xffff_ffff_ffff_ffff
                            * 0xffff_ffff_ffff_ffff) by (nonlinear_arith)
                            requires
                                width <= 0xffff_ffff_ffff_ffff,
                                height <= 0xffff_ffff_ffff_ffff,
                        ;
                        let pixels: u128 = (width as u128) * (height as u128) / 2;
                        if data.len() % 3 == 0 && (data.len() / 3) as u128 == pixels {
                            self.state.open_window(endpoint, width, height);
                            self.state.update_window(endpoint, data, width, height);
                            proof {
                                let expected = old(self)@.message_state(
                                    endpoint,
                                    NetMessageView::Stream(Some((data@, width, height))),
                                    self.state@,
                                );
                                assert(self.state@.windows =~= expected.windows);
                            }
                        } else {
                            self.state.close_window(endpoint);
                        }
                    },
                    None => {
                        self.state.close_window(endpoint);
                    },
                }
                none()
            },
            NetMessage::StreamAudio(samples) => match samples {
                Some(samples) => {
                    let playback = self.state.pulse_audio(samples, endpoint);
                    one(Effect::Play(playback))
                },
                None => {
                    if self.state.stop_audio(endpoint) {
                        one(Effect::Silence)
                    } else {
                        none()
                    }
                },
            },
        }
    }

    /// Handles what the network told: a message is decoded and handled,
    /// unless its bytes are no message; a lost connection unregisters the
    /// peer and rings the bell.
    pub fn process_network_event(&mut self, event: NetEvent) -> (effects: Vec<Effect>)
        requires
            old(self).wf(),
            old(self)@.accepts(EventView::Network(event@)),
        ensures
            final(self).wf(),
            final(self)@ == old(self)@.with_state(
                old(self)@.net_state(event@, final(self)@.state),
            ),
            effects_of(effects@) == old(self)@.net_effects(event@),
            all_wf(effects@),
    {
        match event {
            NetEvent::Message(endpoint, bytes) => match decode(bytes.as_slice()) {
                Ok(message) => self.process_network_message(endpoint, message),
                Err(_) => none(),
            },
            NetEvent::AddedEndpoint(_) => none(),
            NetEvent::RemovedEndpoint(endpoint) => {
                self.state.disconnected_user(endpoint);
                self.righ_the_bell()
            },
        }
    }

    /// Handles a line that the user entered. A line that names a registered
    /// command asks for the action to be acquired, or reports why the
    /// parameters name none. A line that begins like a command and names
    /// none is reported and goes nowhere. Any other line is chat text: it is
    /// logged under the user's own label and sent to every known peer.
    fn process_line(&mut self, input: String) -> (effects: Vec<Effect>)
        requires
            old(self).wf(),
        ensures
            final(self).wf(),
            final(self)@ == old(self)@.with_state(
                old(self)@.line_state(input@, final(self)@.state),
            ),
            effects_of(effects@) == old(self)@.line_effects(input@),
            all_wf(effects@),
    {
        match self.commands.find_command_action(input.as_str()) {
            Some(Ok(request)) => one(Effect::Acquire { request, input }),
            Some(Err(error)) => {
                self.state.add_system_error_message(error.message());
                none()
            },
            None => {
                if is_command_line(input.as_str()) {
                    self.state.add_system_error_message("This command doesn't exists".to_owned());
                    none()
                } else {
                    self.say(input)
                }
            },
        }
    }

    /// Logs `input` as a line of the local user and sends it to every known
    /// peer.
    fn say(&mut self, input: String) -> (effects: Vec<Effect>)
        requires
            old(self).wf(),
        ensures
            final(self).wf(),
            final(self)@ == old(self)@.with_state(
                old(self)@.state.logging(
                    final(self)@.state,
                    old(self)@.own_label(),
                    MessageTypeView::Text(input@),
                ),
            ),
            effects_of(effects@) == seq![
                EffectView::Broadcast(
                    old(self)@.state.users.dom(),
                    NetMessageView::UserMessage(input@),
                ),
            ],
            all_wf(effects@),
    {
        let mut label = self.user_name.clone();
        label.append(" (me)");
        let message = ChatMessage::new(label, MessageType::Text(input.clone()));
        self.state.add_message(message);
        proof {
            let expected = old(self)@.state.logging(
                self.state@,
                old(self)@.own_label(),
                MessageTypeView::Text(input@),
            );
            assert(self.state@.log =~= expected.log);
        }
        one(self.broadcast(NetMessage::UserMessage(input)))
    }

    /// Handles what the terminal told. Escape and control-c ask for the end
    /// of the session. Other characters go into the input; the editing keys
    /// edit it; enter takes the line out and handles it, unless it is empty.
    /// The arrow keys up and down scroll the log.
    pub fn process_terminal_event(&mut self, term_event: TermEvent) -> (effects: Vec<Effect>)
        requires
            old(self).wf(),
            old(self)@.accepts(EventView::Terminal(term_event)),
        ensures
            final(self).wf(),
            final(self)@ == old(self)@.with_state(
                old(self)@.term_state(term_event, final(self)@.state),
            ),
            effects_of(effects@) == old(self)@.term_effects(term_event),
            all_wf(effects@),
    {
        match term_event {
            TermEvent::Mouse => none(),
            TermEvent::Resize(_, _) => none(),
            TermEvent::Key(KeyEvent { code, control }) => match code {
                KeyCode::Esc => one(Effect::Close),
                KeyCode::Char(character) => {
                    if character == 'c' && control {
                        one(Effect::Close)
                    } else {
                        self.state.input_write(character);
                        none()
                    }
                },
                KeyCode::Enter => match self.state.reset_input() {
                    Some(input) => self.process_line(input),
                    None => none(),
                },
                KeyCode::Delete => {
                    self.state.input_remove();
                    none()
                },
                KeyCode::Backspace => {
                    self.state.input_remove_previous();
                    none()
                },
                KeyCode::Left => {
                    self.state.input_move_cursor(CursorMovement::Left);
                    none()
                },
                KeyCode::Right => {
                    self.state.input_move_cursor(CursorMovement::Right);
                    none()
                },
                KeyCode::Home => {
                    self.state.input_move_cursor(CursorMovement::Start);
                    none()
                },
                KeyCode::End => {
                    self.state.input_move_cursor(CursorMovement::End);
                    none()
                },
                KeyCode::Up => {
                    self.state.messages_scroll(ScrollMovement::Up);
                    none()
                },
                KeyCode::Down => {
                    self.state.messages_scroll(ScrollMovement::Down);
                    none()
                },
                KeyCode::PageUp => {
                    self.state.messages_scroll(ScrollMovement::Start);
                    none()
                },
                KeyCode::Other => none(),
            },
        }
    }

    /// Lets `action` do one quantum of work with what its outside work
    /// gave. What it asks to send goes to every known peer; unless it is
    /// completed, it goes back on the schedule with the delay it asked for.
    /// A stream that is completed makes room for the next of its kind.
    pub fn process_action(&mut self, action: Action, outcome: Outcome) -> (effects: Vec<Effect>)
        requires
            old(self).wf(),
            action@.can_process(old(self)@.state, outcome@),
        ensures
            final(self).wf(),
            final(self)@ == old(self)@.with_state(
                old(self)@.action_state(action@, outcome@, final(self)@.state),
            ),
            effects_of(effects@) == old(self)@.action_effects(action@, outcome@),
            all_wf(effects@),
    {
        let mut action = action;
        let ghost before = action@;
        let Step { processing, broadcast } = action.process(&mut self.state, outcome);
        proof {
            lemma_quantum_keeps_users(before, old(self)@.state, outcome@, self.state@);
        }
        let ghost stepped = self.state@;
        match processing {
            Processing::Completed => match action {
                Action::SendStream(_) => self.state.set_streaming(false),
                Action::SendAudio(_) => self.state.set_recording(false),
                _ => {},
            },
            Processing::Partial(_) => {},
        }
        proof {
            lemma_flags_keep_stamps(
                before,
                old(self)@.state,
                outcome@,
                stepped,
                self.state@,
            );
        }
        let mut effects: Vec<Effect> = Vec::new();
        match broadcast {
            Some(message) => {
                let effect = self.broadcast(message);
                proof {
                    lemma_effects_push(effects@, effect);
                }
                effects.push(effect);
            },
            None => {},
        }
        match processing {
            Processing::Completed => {},
            Processing::Partial(delay) => {
                let effect = Effect::Schedule(action, delay);
                proof {
                    lemma_effects_push(effects@, effect);
                }
                effects.push(effect);
            },
        }
        proof {
            assert(effects_of(effects@) =~= old(self)@.action_effects(before, outcome@));
        }
        effects
    }

    /// Puts an action that was acquired for the line `input` on the
    /// schedule, and treats the line as one of chat text. Of each kind of
    /// stream only one is scheduled at a time: a second one is dropped, and
    /// reported.
    pub fn start_action(&mut self, input: String, action: Action) -> (effects: Vec<Effect>)
        requires
            old(self).wf(),
        ensures
            final(self).wf(),
            final(self)@ == old(self)@.with_state(
                old(self)@.acquired_state(input@, action@, final(self)@.state),
            ),
            effects_of(effects@) == old(self)@.acquired_effects(input@, action@),
            all_wf(effects@),
    {
        let duplicate = match &action {
            Action::SendStream(_) => self.state.streaming(),
            Action::SendAudio(_) => self.state.recording(),
            _ => false,
        };
        if duplicate {
            let text = match &action {
                Action::SendAudio(_) => "The audio stream is already running".to_owned(),
                _ => "The video stream is already running".to_owned(),
            };
            self.state.add_system_error_message(text);
            return none();
        }
        let ghost line = input@;
        let ghost scheduled = action@;
        let mut effects = self.say(input);
        let ghost said = self.state@;
        match &action {
            Action::SendStream(_) => self.state.set_streaming(true),
            Action::SendAudio(_) => self.state.set_recording(true),
            _ => {},
        }
        let effect = Effect::Schedule(action, Duration::from_millis(0));
        proof {
            lemma_effects_push(effects@, effect);
        }
        effects.push(effect);
        proof {
            assert(effects_of(effects@) =~= old(self)@.acquired_effects(line, scheduled));
            assert(self.state@.log == said.log);
        }
        effects
    }

    /// Tells whether [`ApplicationView::accepts`] holds.
    pub fn accepts(&self, event: &Event) -> (ok: bool)
        requires
            self.wf(),
        ensures
            ok == self@.accepts(event@),
    {
        match event {
            Event::Network(NetEvent::Message(_, bytes)) => match decode(bytes.as_slice()) {
                Ok(NetMessage::HelloUser(_)) => self.state.next_user_id() < usize::MAX,
                _ => true,
            },
            Event::Terminal(TermEvent::Key(key)) => match key.code {
                KeyCode::Down => self.state.scroll_messages_view() < usize::MAX,
                _ => true,
            },
            Event::Action(action, outcome) => action.check_process(&self.state, outcome),
            Event::Connected(_, Ok(_)) => self.state.next_user_id() < usize::MAX,
            _ => true,
        }
    }

    /// Handles one event and tells the caller what to do and whether to go
    /// on. The caller renders the state after every event that lets it go
    /// on.
    pub fn process_event(&mut self, event: Event) -> (reaction: Reaction)
        requires
            old(self).wf(),
            old(self)@.accepts(event@),
        ensures
            final(self).wf(),
            final(self)@ == old(self)@.with_state(
                old(self)@.event_state(event@, final(self)@.state),
            ),
            effects_of(reaction.effects@) == old(self)@.event_effects(event@),
            all_wf(reaction.effects@),
            reaction.control@ == ApplicationView::event_control(event@),
    {
        match event {
            Event::Network(net_event) => Reaction {
                effects: self.process_network_event(net_event),
                control: Control::Continue,
            },
            Event::Terminal(term_event) => Reaction {
                effects: self.process_terminal_event(term_event),
                control: Control::Continue,
            },
            Event::Action(action, outcome) => Reaction {
                effects: self.process_action(action, outcome),
                control: Control::Continue,
            },
            Event::Close(error) => Reaction { effects: none(), control: Control::Stop(error) },
            Event::Connected(user, Ok(endpoint)) => {
                let greeting = Effect::Send(endpoint, NetMessage::HelloUser(self.user_name.clone()));
                self.state.connected_user(endpoint, user.as_str());
                Reaction { effects: one(greeting), control: Control::Continue }
            },
            Event::Connected(_, Err(error)) => {
                self.state.add_system_error_message(error);
                Reaction { effects: none(), control: Control::Continue }
            },
            Event::Acquired(input, Ok(action)) => Reaction {
                effects: self.start_action(input, action),
                control: Control::Continue,
            },
            Event::Acquired(_, Err(error)) => {
                self.state.add_system_error_message(error);
                Reaction { effects: none(), control: Control::Continue }
            },
            Event::Failed(error) => {
                self.state.add_system_error_message(error);
                Reaction { effects: none(), control: Control::Continue }
            },
            Event::Undelivered(errors) => {
                if errors.len() > 0 {
                    self.state.add_system_error_message(stringify_sendall_errors(&errors));
                }
                Reaction { effects: none(), control: Control::Continue }
            },
        }
    }
}

/// Every effect of the list is well formed.
pub open spec fn all_wf(effects: Seq<Effect>) -> bool {
    forall|i: int| 0 <= i < effects.len() ==> (#[trigger] effects[i]).wf()
}

proof fn lemma_effects_push(effects: Seq<Effect>, effect: Effect)
    ensures
        effects_of(effects.push(effect)) == effects_of(effects).push(effect@),
{
    assert(effects_of(effects.push(effect)) =~= effects_of(effects).push(effect@));
}

/// Taking an action off the schedule does not touch the log, so the dates
/// of the entries that its last quantum made stay what they were.
proof fn lemma_flags_keep_stamps(
    action: ActionView,
    state: StateView,
    outcome: OutcomeView,
    stepped: StateView,
    after: StateView,
)
    requires
        stepped == action.state_after(state, outcome, stepped),
        after.log == stepped.log,
    ensures
        action.state_after(state, outcome, after) == stepped,
{
}

/// A quantum of work changes neither who is connected nor who they are.
proof fn lemma_quantum_keeps_users(
    action: ActionView,
    state: StateView,
    outcome: OutcomeView,
    after: StateView,
)
    requires
        after == action.state_after(state, outcome, after),
    ensures
        after.users == state.users,
{
}

fn none() -> (effects: Vec<Effect>)
    ensures
        effects_of(effects@) == Seq::<EffectView>::empty(),
        all_wf(effects@),
{
    let effects: Vec<Effect> = Vec::new();
    assert(effects_of(effects@) =~= Seq::<EffectView>::empty());
    effects
}

fn one(effect: Effect) -> (effects: Vec<Effect>)
    requires
        effect.wf(),
    ensures
        effects_of(effects@) == seq![effect@],
        all_wf(effects@),
{
    let mut effects: Vec<Effect> = Vec::new();
    effects.push(effect);
    assert(effects_of(effects@) =~= seq![effect@]);
    effects
}

} // verus!
