//! Session state: the peer registry, the chat log, the input buffer, the
//! table of transfers and the media windows. One thread owns it.

pub mod audio;
pub mod progress;

use crate::state::audio::AudioStream;
pub use crate::state::progress::ProgressState;
use crate::util::{char_columns, columns, string_of};
use chrono::NaiveDateTime;
use std::collections::HashMap;
use vstd::hash_map::StringHashMap;
use vstd::prelude::*;
use vstd::std_specs::iter::IteratorSpec;
use vstd::string::*;

verus! {

broadcast use vstd::std_specs::hash::group_hash_axioms;

/// Transport-level address that identifies one peer connection.
pub type Endpoint = u64;

/// `chrono::NaiveDateTime`, a date and time of day without a time zone.
/// The library carries such values and never looks inside.
#[verifier::external_type_specification]
#[verifier::external_body]
pub struct ExNaiveDateTime(NaiveDateTime);

/// Reads the local wall-clock time with `chrono::Local::now` and takes the
/// date and time of day from it with `DateTime::naive_local`. Nothing is
/// claimed of the value: it differs from call to call. The calls panic only
/// where the system clock stands before 1970 or beyond the years that
/// `chrono` can represent.
#[verifier::external_body]
fn local_now() -> NaiveDateTime {
    chrono::Local::now().naive_local()
}

/// Severity of a message of the application itself.
#[derive(Clone, Copy, Debug, PartialEq, Eq, Structural)]
pub enum SystemMessageType {
    Info,
    Warning,
    Error,
}

/// Payload of an entry of the chat log.
#[derive(Debug, PartialEq)]
pub enum MessageType {
    /// The author came online.
    Connection,
    /// The author went offline.
    Disconnection,
    /// A line of chat text.
    Text(String),
    /// A message of the application, with its severity.
    System(String, SystemMessageType),
    /// A transfer and how far it has come.
    Progress(ProgressState),
}

/// Mathematical model of a [`MessageType`].
pub enum MessageTypeView {
    Connection,
    Disconnection,
    Text(Seq<char>),
    System(Seq<char>, SystemMessageType),
    Progress(ProgressState),
}

impl View for MessageType {
    type V = MessageTypeView;

    open spec fn view(&self) -> MessageTypeView {
        match self {
            MessageType::Connection => MessageTypeView::Connection,
            MessageType::Disconnection => MessageTypeView::Disconnection,
            MessageType::Text(content) => MessageTypeView::Text(content@),
            MessageType::System(content, severity) => MessageTypeView::System(content@, *severity),
            MessageType::Progress(progress) => MessageTypeView::Progress(*progress),
        }
    }
}

impl Clone for MessageType {
    fn clone(&self) -> (copy: MessageType)
        ensures
            copy@ == self@,
    {
        match self {
            MessageType::Connection => MessageType::Connection,
            MessageType::Disconnection => MessageType::Disconnection,
            MessageType::Text(content) => MessageType::Text(content.clone()),
            MessageType::System(content, severity) => MessageType::System(
                content.clone(),
                *severity,
            ),
            MessageType::Progress(progress) => MessageType::Progress(*progress),
        }
    }
}

/// An entry of the chat log.
#[derive(Debug, PartialEq)]
pub struct ChatMessage {
    /// Local time at which the entry was made.
    pub date: NaiveDateTime,
    /// Label of the author.
    pub user: String,
    /// What the entry says.
    pub message_type: MessageType,
}

/// Mathematical model of a [`ChatMessage`].
pub struct ChatMessageView {
    pub date: NaiveDateTime,
    pub user: Seq<char>,
    pub message_type: MessageTypeView,
}

impl View for ChatMessage {
    type V = ChatMessageView;

    open spec fn view(&self) -> ChatMessageView {
        ChatMessageView { date: self.date, user: self.user@, message_type: self.message_type@ }
    }
}

impl Clone for ChatMessage {
    fn clone(&self) -> (copy: ChatMessage)
        ensures
            copy@ == self@,
    {
        ChatMessage {
            date: self.date,
            user: self.user.clone(),
            message_type: self.message_type.clone(),
        }
    }
}

impl ChatMessage {
    /// An entry stamped with the current local time.
    pub fn new(user: String, message_type: MessageType) -> (message: ChatMessage)
        ensures
            message.user == user,
            message.message_type == message_type,
    {
        ChatMessage { date: local_now(), user, message_type }
    }
}

/// Label under which the application itself writes to the log.
pub open spec fn system_label() -> Seq<char> {
    "Termchat: "@
}

/// The latest frame of a peer's video stream.
#[derive(Clone, Debug, PartialEq, Eq)]
pub struct Window {
    pub data: Vec<u8>,
    pub width: usize,
    pub height: usize,
}

/// Mathematical model of a [`Window`].
pub struct WindowView {
    pub data: Seq<u8>,
    pub width: usize,
    pub height: usize,
}

impl View for Window {
    type V = WindowView;

    open spec fn view(&self) -> WindowView {
        WindowView { data: self.data@, width: self.width, height: self.height }
    }
}

impl Window {
    /// A window of the given size that holds no frame yet.
    pub fn new(width: usize, height: usize) -> (window: Window)
        ensures
            window@ == (WindowView { data: Seq::empty(), width, height }),
    {
        Window { data: Vec::new(), width, height }
    }
}

/// What the audio output has to do with a buffer of samples from a peer.
#[derive(Clone, Debug, PartialEq, Eq)]
pub struct Playback {
    /// Whether playback has to be started first.
    pub start: bool,
    /// The samples to play.
    pub samples: Vec<u8>,
}

/// A move of the cursor in the input buffer.
#[derive(Clone, Copy, Debug, PartialEq, Eq, Structural)]
pub enum CursorMovement {
    Left,
    Right,
    Start,
    End,
}

/// A move of the view on the chat log.
#[derive(Clone, Copy, Debug, PartialEq, Eq, Structural)]
pub enum ScrollMovement {
    Up,
    Down,
    Start,
}

/// Where the cursor stands after one more character of `w` columns, in a
/// panel `width` columns wide. `pos` is (column, row).
pub open spec fn cursor_step(pos: (int, int), w: int, width: int) -> (int, int) {
    let column = pos.0 + w;
    if column == width {
        (0, pos.1 + 1)
    } else if column > width {
        // A character wider than what is left of the row moves to the next
        // row, and leaves the columns it could not use empty.
        (column - (width - (w - 1)), pos.1 + 1)
    } else {
        (column, pos.1)
    }
}

/// Where the cursor stands behind the characters of `chars`.
pub open spec fn cursor_walk(chars: Seq<char>, width: int) -> (int, int)
    decreases chars.len(),
{
    if chars.len() == 0 {
        (0, 0)
    } else {
        cursor_step(cursor_walk(chars.drop_last(), width), columns(chars.last()) as int, width)
    }
}

/// The models of a list of log entries.
pub open spec fn log_of(messages: Seq<ChatMessage>) -> Seq<ChatMessageView> {
    messages.map_values(|m: ChatMessage| m@)
}

/// Mathematical model of the [`State`].
pub struct StateView {
    /// The chat log, oldest entry first.
    pub log: Seq<ChatMessageView>,
    /// How far the view on the log is scrolled.
    pub scroll: usize,
    /// The characters typed so far.
    pub input: Seq<char>,
    /// Index in `input` before which the next character goes.
    pub cursor: usize,
    /// Name of each connected peer.
    pub users: Map<Endpoint, Seq<char>>,
    /// Identity number of each name seen so far.
    pub user_ids: Map<Seq<char>, usize>,
    /// The identity number that the next new name gets.
    pub next_user_id: usize,
    /// Whether the outbound video stream has been asked to stop.
    pub stop_stream: bool,
    /// Whether the outbound audio stream has been asked to stop.
    pub stop_audio: bool,
    /// Window of each peer that streams video.
    pub windows: Map<Endpoint, WindowView>,
    /// For each transfer, by its id, the index of its entry in `log`.
    pub transfers: Seq<usize>,
    /// The peers whose audio is being played, while playback runs.
    pub audio: Option<Set<Endpoint>>,
    /// Whether an outbound video stream is scheduled.
    pub streaming: bool,
    /// Whether an outbound audio stream is scheduled.
    pub recording: bool,
}

impl StateView {
    /// The state of a session that has just begun.
    pub open spec fn initial() -> StateView {
        StateView {
            log: Seq::empty(),
            scroll: 0,
            input: Seq::empty(),
            cursor: 0,
            users: Map::empty(),
            user_ids: Map::empty(),
            next_user_id: 0,
            stop_stream: false,
            stop_audio: false,
            windows: Map::empty(),
            transfers: Seq::empty(),
            audio: None,
            streaming: false,
            recording: false,
        }
    }

    /// Whether a connected peer goes by this name.
    pub open spec fn has_user_named(self, name: Seq<char>) -> bool {
        exists|endpoint: Endpoint|
            self.users.contains_key(endpoint) && #[trigger] self.users[endpoint] == name
    }

    /// The invariant of the session state.
    pub open spec fn wf(self) -> bool {
        &&& self.cursor <= self.input.len()
        &&& self.users.dom().finite()
        &&& forall|name: Seq<char>| #[trigger]
            self.user_ids.contains_key(name) ==> self.user_ids[name] < self.next_user_id
        &&& forall|a: Seq<char>, b: Seq<char>|
            self.user_ids.contains_key(a) && self.user_ids.contains_key(b) && a != b ==> (
            #[trigger] self.user_ids[a]) != (#[trigger] self.user_ids[b])
        &&& forall|id: int|
            0 <= id < self.transfers.len() ==> (#[trigger] self.transfers[id]) < self.log.len()
                && self.log[self.transfers[id] as int].message_type is Progress
        &&& forall|i: int, j: int|
            0 <= i < j < self.transfers.len() ==> (#[trigger] self.transfers[i]) < (
            #[trigger] self.transfers[j])
        &&& self.audio matches Some(users) ==> users.finite()
    }

    /// How far the transfer `id` has come; `None` where no transfer has this id.
    pub open spec fn progress_of(self, id: usize) -> Option<ProgressState> {
        if id < self.transfers.len() {
            match self.log[self.transfers[id as int] as int].message_type {
                MessageTypeView::Progress(progress) => Some(progress),
                _ => None,
            }
        } else {
            None
        }
    }

    /// The state with one more entry in the log. The entry takes its date
    /// from the entry at the same place in `stamps`: the clock decides it.
    pub open spec fn logging(
        self,
        stamps: StateView,
        user: Seq<char>,
        message_type: MessageTypeView,
    ) -> StateView {
        StateView {
            log: self.log.push(
                ChatMessageView {
                    date: stamps.log[self.log.len() as int].date,
                    user,
                    message_type,
                },
            ),
            ..self
        }
    }

    /// The state with one more message of the application in the log.
    pub open spec fn reporting(
        self,
        stamps: StateView,
        content: Seq<char>,
        severity: SystemMessageType,
    ) -> StateView {
        self.logging(stamps, system_label(), MessageTypeView::System(content, severity))
    }

    /// The state with one more transfer, of `total` bytes, logged as started.
    pub open spec fn with_transfer(
        self,
        stamps: StateView,
        file_name: Seq<char>,
        total: u64,
    ) -> StateView {
        StateView {
            transfers: self.transfers.push(self.log.len() as usize),
            ..self.logging(
                stamps,
                "Sending '"@ + file_name + "'"@,
                MessageTypeView::Progress(ProgressState::Started(total)),
            )
        }
    }

    /// The state after the peer at `endpoint` was registered as `user`.
    pub open spec fn with_user(
        self,
        stamps: StateView,
        endpoint: Endpoint,
        user: Seq<char>,
    ) -> StateView {
        StateView {
            users: self.users.insert(endpoint, user),
            user_ids: if self.user_ids.contains_key(user) {
                self.user_ids
            } else {
                self.user_ids.insert(user, self.next_user_id)
            },
            next_user_id: (self.next_user_id + 1) as usize,
            ..self.logging(stamps, user, MessageTypeView::Connection)
        }
    }

    /// The state after the peer at `endpoint` was forgotten.
    pub open spec fn without_user(self, stamps: StateView, endpoint: Endpoint) -> StateView {
        if self.users.contains_key(endpoint) {
            StateView {
                users: self.users.remove(endpoint),
                windows: self.windows.remove(endpoint),
                ..self.logging(stamps, self.users[endpoint], MessageTypeView::Disconnection)
            }
        } else {
            StateView { windows: self.windows.remove(endpoint), ..self }
        }
    }

    /// The state after the transfer `id` was told of `delta` more bytes.
    pub open spec fn with_progress(self, id: usize, delta: u64) -> StateView {
        match self.progress_of(id) {
            Some(progress) => {
                let index = self.transfers[id as int] as int;
                StateView {
                    log: self.log.update(
                        index,
                        ChatMessageView {
                            message_type: MessageTypeView::Progress(progress.advance(delta)),
                            ..self.log[index]
                        },
                    ),
                    ..self
                }
            },
            None => self,
        }
    }

    /// Whether [`State::progress_message_update`] can account for `delta`
    /// more bytes of the transfer `id` without overflow.
    pub open spec fn can_progress(self, id: usize, delta: u64) -> bool {
        self.progress_of(id) matches Some(progress) ==> progress.can_advance(delta)
    }
}

/// Everything the session holds.
pub struct State {
    messages: Vec<ChatMessage>,
    scroll_messages_view: usize,
    input: Vec<char>,
    input_cursor: usize,
    lan_users: HashMap<Endpoint, String>,
    users_id: StringHashMap<usize>,
    last_user_id: usize,
    stop_stream: bool,
    stop_audio: bool,
    windows: HashMap<Endpoint, Window>,
    progress: Vec<usize>,
    audio: Option<AudioStream>,
    streaming: bool,
    recording: bool,
}

impl View for State {
    type V = StateView;

    closed spec fn view(&self) -> StateView {
        StateView {
            log: log_of(self.messages@),
            scroll: self.scroll_messages_view,
            input: self.input@,
            cursor: self.input_cursor,
            users: self.lan_users@.map_values(|name: String| name@),
            user_ids: self.users_id@,
            next_user_id: self.last_user_id,
            stop_stream: self.stop_stream,
            stop_audio: self.stop_audio,
            windows: self.windows@.map_values(|window: Window| window@),
            transfers: self.progress@,
            audio: match self.audio {
                Some(stream) => Some(stream@),
                None => None,
            },
            streaming: self.streaming,
            recording: self.recording,
        }
    }
}

proof fn lemma_log_push(messages: Seq<ChatMessage>, message: ChatMessage)
    ensures
        log_of(messages.push(message)) == log_of(messages).push(message@),
{
    assert(log_of(messages.push(message)) =~= log_of(messages).push(message@));
}

proof fn lemma_names_insert(users: Map<Endpoint, String>, endpoint: Endpoint, name: String)
    ensures
        users.insert(endpoint, name).map_values(|name: String| name@) == users.map_values(
            |name: String| name@,
        ).insert(endpoint, name@),
{
    assert(users.insert(endpoint, name).map_values(|name: String| name@) =~= users.map_values(
        |name: String| name@,
    ).insert(endpoint, name@));
}

proof fn lemma_names_remove(users: Map<Endpoint, String>, endpoint: Endpoint)
    ensures
        users.remove(endpoint).map_values(|name: String| name@) == users.map_values(
            |name: String| name@,
        ).remove(endpoint),
{
    assert(users.remove(endpoint).map_values(|name: String| name@) =~= users.map_values(
        |name: String| name@,
    ).remove(endpoint));
}

proof fn lemma_windows_insert(windows: Map<Endpoint, Window>, endpoint: Endpoint, window: Window)
    ensures
        windows.insert(endpoint, window).map_values(|window: Window| window@)
            == windows.map_values(|window: Window| window@).insert(endpoint, window@),
{
    assert(windows.insert(endpoint, window).map_values(|window: Window| window@)
        =~= windows.map_values(|window: Window| window@).insert(endpoint, window@));
}

proof fn lemma_windows_remove(windows: Map<Endpoint, Window>, endpoint: Endpoint)
    ensures
        windows.remove(endpoint).map_values(|window: Window| window@) == windows.map_values(
            |window: Window| window@,
        ).remove(endpoint),
{
    assert(windows.remove(endpoint).map_values(|window: Window| window@) =~= windows.map_values(
        |window: Window| window@,
    ).remove(endpoint));
}

impl Default for State {
    fn default() -> (state: State)
        ensures
            state.wf(),
            state@ == StateView::initial(),
    {
        State::new()
    }
}

impl State {
    /// The invariant that every operation keeps.
    pub open spec fn wf(&self) -> bool {
        self@.wf()
    }

    /// The state of a session that has just begun.
    pub fn new() -> (state: State)
        ensures
            state.wf(),
            state@ == StateView::initial(),
    {
        let state = State {
            messages: Vec::new(),
            scroll_messages_view: 0,
            input: Vec::new(),
            input_cursor: 0,
            lan_users: HashMap::new(),
            users_id: StringHashMap::new(),
            last_user_id: 0,
            stop_stream: false,
            stop_audio: false,
            windows: HashMap::new(),
            progress: Vec::new(),
            audio: None,
            streaming: false,
            recording: false,
        };
        proof {
            assert(state@.log =~= Seq::empty());
            assert(state@.users =~= Map::empty());
            assert(state@.windows =~= Map::empty());
        }
        state
    }

    /// The chat log, oldest entry first.
    pub fn messages(&self) -> (messages: &Vec<ChatMessage>)
        ensures
            log_of(messages@) == self@.log,
    {
        &self.messages
    }

    /// How far the view on the log is scrolled.
    pub fn scroll_messages_view(&self) -> (scroll: usize)
        ensures
            scroll == self@.scroll,
    {
        self.scroll_messages_view
    }

    /// The characters typed so far.
    pub fn input(&self) -> (input: &[char])
        ensures
            input@ == self@.input,
    {
        self.input.as_slice()
    }

    /// Index in the input before which the next character goes.
    pub fn input_cursor(&self) -> (cursor: usize)
        ensures
            cursor == self@.cursor,
    {
        self.input_cursor
    }

    /// Screen position (column, row) of the cursor in an input panel `width`
    /// columns wide, each reduced to 16 bits.
    pub fn ui_input_cursor(&self, width: usize) -> (position: (u16, u16))
        requires
            self.wf(),
        ensures
            position.0 == cursor_walk(self@.input.take(self@.cursor as int), width as int).0
                % 0x10000,
            position.1 == cursor_walk(self@.input.take(self@.cursor as int), width as int).1
                % 0x10000,
    {
        let mut column: u128 = 0;
        let mut row: usize = 0;
        let mut i: usize = 0;
        while i < self.input_cursor
            invariant
                i <= self.input_cursor <= self.input.len(),
                column <= 6 * i,
                row <= i,
                cursor_walk(self.input@.take(i as int), width as int) == (
                    column as int,
                    row as int,
                ),
            decreases self.input_cursor - i,
        {
            let ghost before = self.input@.take(i as int);
            let ghost after = self.input@.take(i + 1);
            assert(after.drop_last() =~= before);
            assert(after.last() == self.input@[i as int]);
            let char_width = char_columns(self.input[i]);
            column = column + (char_width as u128);
            if column == (width as u128) {
                column = 0;
                row = row + 1;
            } else if column > (width as u128) {
                column = column - (width as u128) - 1 + (char_width as u128);
                row = row + 1;
            }
            i = i + 1;
        }
        ((column % 0x10000) as u16, (row % 0x10000) as u16)
    }

    /// Name of the peer connected at `endpoint`.
    pub fn user_name(&self, endpoint: Endpoint) -> (name: Option<&String>)
        ensures
            match name {
                Some(name) => self@.users.contains_key(endpoint) && self@.users[endpoint]
                    == name@,
                None => !self@.users.contains_key(endpoint),
            },
    {
        self.lan_users.get(&endpoint)
    }

    /// The endpoints of all connected peers, each once, in no particular order.
    pub fn all_user_endpoints(&self) -> (endpoints: Vec<Endpoint>)
        requires
            self.wf(),
        ensures
            endpoints@.to_set() == self@.users.dom(),
            endpoints@.no_duplicates(),
    {
        let mut endpoints: Vec<Endpoint> = Vec::new();
        let keys = self.lan_users.keys();
        assert(keys.remaining().unref().to_set() == self.lan_users@.dom());
        assert(keys.remaining().no_duplicates());
        for endpoint in it: keys
            invariant
                it.seq() == keys.remaining(),
                endpoints@ == it.seq().unref().take(it.index()),
        {
            endpoints.push(*endpoint);
        }
        proof {
            let all = keys.remaining().unref();
            assert(endpoints@ =~= all);
            assert(self@.users.dom() =~= self.lan_users@.dom());
            assert forall|i: int, j: int| 0 <= i < j < all.len() implies all[i] != all[j] by {
                assert(keys.remaining()[i] != keys.remaining()[j]);
            }
        }
        endpoints
    }

    /// Whether a connected peer goes by this name.
    pub fn has_user_named(&self, name: &str) -> (known: bool)
        requires
            self.wf(),
        ensures
            known == self@.has_user_named(name@),
    {
        let wanted = name.to_owned();
        let endpoints = self.all_user_endpoints();
        let mut i: usize = 0;
        while i < endpoints.len()
            invariant
                i <= endpoints.len(),
                wanted@ == name@,
                endpoints@.to_set() == self@.users.dom(),
                forall|j: int| 0 <= j < i ==> self@.users[#[trigger] endpoints@[j]] != name@,
            decreases endpoints.len() - i,
        {
            assert(endpoints@.to_set().contains(endpoints@[i as int]));
            match self.lan_users.get(&endpoints[i]) {
                Some(user) => {
                    if *user == wanted {
                        proof {
                            let endpoint = endpoints@[i as int];
                            assert(self@.users.contains_key(endpoint));
                            assert(self@.users[endpoint] == name@);
                        }
                        return true;
                    }
                },
                None => {},
            }
            i += 1;
        }
        proof {
            assert forall|endpoint: Endpoint|
                self@.users.contains_key(endpoint) implies #[trigger] self@.users[endpoint]
                != name@ by {
                assert(endpoints@.to_set().contains(endpoint));
                let j = choose|j: int| 0 <= j < endpoints@.len() && endpoints@[j] == endpoint;
                assert(self@.users[endpoints@[j]] != name@);
            }
        }
        false
    }

    /// Identity number of each name seen so far.
    pub fn users_id(&self) -> (ids: &StringHashMap<usize>)
        ensures
            ids@ == self@.user_ids,
    {
        &self.users_id
    }

    /// The identity number that the next new name gets.
    pub fn next_user_id(&self) -> (id: usize)
        ensures
            id == self@.next_user_id,
    {
        self.last_user_id
    }

    /// Registers the peer at `endpoint` under the name `user`, in place of
    /// whoever was registered there, and logs the connection. A name not
    /// seen before gets the next identity number; a known name keeps its own.
    pub fn connected_user(&mut self, endpoint: Endpoint, user: &str)
        requires
            old(self).wf(),
            old(self)@.next_user_id < usize::MAX,
        ensures
            final(self).wf(),
            final(self)@ == old(self)@.with_user(final(self)@, endpoint, user@),
    {
        let name = user.to_owned();
        proof {
            lemma_names_insert(self.lan_users@, endpoint, name);
        }
        self.lan_users.insert(endpoint, name);
        if !self.users_id.contains_key(user) {
            self.users_id.insert(user.to_owned(), self.last_user_id);
        }
        self.last_user_id = self.last_user_id + 1;
        self.add_message(ChatMessage::new(user.to_owned(), MessageType::Connection));
        proof {
            assert(final(self)@.user_ids =~= if old(self)@.user_ids.contains_key(user@) {
                old(self)@.user_ids
            } else {
                old(self)@.user_ids.insert(user@, old(self)@.next_user_id)
            });
        }
    }

    /// Forgets the peer at `endpoint` and its window. Where a peer was
    /// registered there, its leaving is logged under its name.
    pub fn disconnected_user(&mut self, endpoint: Endpoint)
        requires
            old(self).wf(),
        ensures
            final(self).wf(),
            final(self)@ == old(self)@.without_user(final(self)@, endpoint),
    {
        proof {
            lemma_names_remove(self.lan_users@, endpoint);
            lemma_windows_remove(self.windows@, endpoint);
        }
        self.windows.remove(&endpoint);
        match self.lan_users.remove(&endpoint) {
            Some(user) => {
                self.add_message(ChatMessage::new(user, MessageType::Disconnection));
            },
            None => {
                assert(final(self)@.users =~= old(self)@.users);
            },
        }
    }

    /// Puts `character` at the cursor and moves the cursor behind it.
    pub fn input_write(&mut self, character: char)
        requires
            old(self).wf(),
        ensures
            final(self).wf(),
            final(self)@ == (StateView {
                input: old(self)@.input.insert(old(self)@.cursor as int, character),
                cursor: (old(self)@.cursor + 1) as usize,
                ..old(self)@
            }),
    {
        self.input.insert(self.input_cursor, character);
        assert(self.input_cursor < self.input.len());
        self.input_cursor = self.input_cursor + 1;
    }

    /// Removes the character at the cursor, if there is one.
    pub fn input_remove(&mut self)
        requires
            old(self).wf(),
        ensures
            final(self).wf(),
            final(self)@ == (StateView {
                input: if old(self)@.cursor < old(self)@.input.len() {
                    old(self)@.input.remove(old(self)@.cursor as int)
                } else {
                    old(self)@.input
                },
                ..old(self)@
            }),
    {
        if self.input_cursor < self.input.len() {
            self.input.remove(self.input_cursor);
        }
    }

    /// Removes the character before the cursor, if there is one, and moves
    /// the cursor back onto its place.
    pub fn input_remove_previous(&mut self)
        requires
            old(self).wf(),
        ensures
            final(self).wf(),
            final(self)@ == (if old(self)@.cursor > 0 {
                StateView {
                    input: old(self)@.input.remove(old(self)@.cursor - 1),
                    cursor: (old(self)@.cursor - 1) as usize,
                    ..old(self)@
                }
            } else {
                old(self)@
            }),
    {
        if self.input_cursor > 0 {
            self.input_cursor = self.input_cursor - 1;
            self.input.remove(self.input_cursor);
        }
    }

    /// Moves the cursor by one character, or to either end of the input.
    /// At an end, a move beyond it changes nothing.
    pub fn input_move_cursor(&mut self, movement: CursorMovement)
        requires
            old(self).wf(),
        ensures
            final(self).wf(),
            final(self)@ == (StateView {
                cursor: match movement {
                    CursorMovement::Left => if old(self)@.cursor > 0 {
                        (old(self)@.cursor - 1) as usize
                    } else {
                        0
                    },
                    CursorMovement::Right => if old(self)@.cursor < old(self)@.input.len() {
                        (old(self)@.cursor + 1) as usize
                    } else {
                        old(self)@.cursor
                    },
                    CursorMovement::Start => 0,
                    CursorMovement::End => old(self)@.input.len() as usize,
                },
                ..old(self)@
            }),
    {
        match movement {
            CursorMovement::Left => {
                if self.input_cursor > 0 {
                    self.input_cursor = self.input_cursor - 1;
                }
            },
            CursorMovement::Right => {
                if self.input_cursor < self.input.len() {
                    self.input_cursor = self.input_cursor + 1;
                }
            },
            CursorMovement::Start => {
                self.input_cursor = 0;
            },
            CursorMovement::End => {
                self.input_cursor = self.input.len();
            },
        }
    }

    /// Whether [`Self::messages_scroll`] can make this move without overflow.
    pub open spec fn can_scroll(&self, movement: ScrollMovement) -> bool {
        movement == ScrollMovement::Down ==> self@.scroll < usize::MAX
    }

    /// Scrolls the view on the log: `Up` by one row unless at the top,
    /// `Down` by one row. `Start` leaves the view where it is.
    pub fn messages_scroll(&mut self, movement: ScrollMovement)
        requires
            old(self).wf(),
            old(self).can_scroll(movement),
        ensures
            final(self).wf(),
            final(self)@ == (StateView {
                scroll: match movement {
                    ScrollMovement::Up => if old(self)@.scroll > 0 {
                        (old(self)@.scroll - 1) as usize
                    } else {
                        0
                    },
                    ScrollMovement::Down => (old(self)@.scroll + 1) as usize,
                    ScrollMovement::Start => old(self)@.scroll,
                },
                ..old(self)@
            }),
    {
        match movement {
            ScrollMovement::Up => {
                if self.scroll_messages_view > 0 {
                    self.scroll_messages_view = self.scroll_messages_view - 1;
                }
            },
            ScrollMovement::Down => {
                self.scroll_messages_view = self.scroll_messages_view + 1;
            },
            ScrollMovement::Start => {},
        }
    }

    /// Takes the typed text out of the buffer and puts the cursor at 0.
    /// An empty buffer gives nothing.
    pub fn reset_input(&mut self) -> (text: Option<String>)
        requires
            old(self).wf(),
        ensures
            final(self).wf(),
            final(self)@ == (StateView { input: Seq::empty(), cursor: 0, ..old(self)@ }),
            match text {
                Some(text) => old(self)@.input.len() > 0 && text@ == old(self)@.input,
                None => old(self)@.input.len() == 0,
            },
    {
        if self.input.len() > 0 {
            self.input_cursor = 0;
            let text = string_of(&self.input);
            self.input.clear();
            return Some(text);
        }
        assert(old(self)@.input =~= Seq::empty());
        None
    }

    /// Appends an entry to the log.
    pub fn add_message(&mut self, message: ChatMessage)
        requires
            old(self).wf(),
        ensures
            final(self).wf(),
            final(self)@ == (StateView { log: old(self)@.log.push(message@), ..old(self)@ }),
    {
        proof {
            lemma_log_push(self.messages@, message);
        }
        self.messages.push(message);
    }

    /// Logs a message of the application with the given severity.
    pub fn add_system_message(&mut self, content: String, severity: SystemMessageType)
        requires
            old(self).wf(),
        ensures
            final(self).wf(),
            final(self)@ == old(self)@.reporting(final(self)@, content@, severity),
    {
        let message_type = MessageType::System(content, severity);
        let message = ChatMessage::new("Termchat: ".to_owned(), message_type);
        self.add_message(message);
    }

    /// Logs a warning of the application.
    pub fn add_system_warn_message(&mut self, content: String)
        requires
            old(self).wf(),
        ensures
            final(self).wf(),
            final(self)@ == old(self)@.reporting(final(self)@, content@, SystemMessageType::Warning),
    {
        self.add_system_message(content, SystemMessageType::Warning);
    }

    /// Logs a notice of the application.
    pub fn add_system_info_message(&mut self, content: String)
        requires
            old(self).wf(),
        ensures
            final(self).wf(),
            final(self)@ == old(self)@.reporting(final(self)@, content@, SystemMessageType::Info),
    {
        self.add_system_message(content, SystemMessageType::Info);
    }

    /// Logs an error of the application.
    pub fn add_system_error_message(&mut self, content: String)
        requires
            old(self).wf(),
        ensures
            final(self).wf(),
            final(self)@ == old(self)@.reporting(final(self)@, content@, SystemMessageType::Error),
    {
        self.add_system_message(content, SystemMessageType::Error);
    }

    /// Opens a transfer of `total` bytes: logs it as started, under a label
    /// made of `file_name`, and returns the id by which it is updated.
    pub fn add_progress_message(&mut self, file_name: &str, total: u64) -> (id: usize)
        requires
            old(self).wf(),
        ensures
            final(self).wf(),
            id == old(self)@.transfers.len(),
            final(self)@ == old(self)@.with_transfer(final(self)@, file_name@, total),
            final(self)@.progress_of(id) == Some(ProgressState::Started(total)),
    {
        let mut label = "Sending '".to_owned();
        label.append(file_name);
        label.append("'");
        let message = ChatMessage::new(
            label,
            MessageType::Progress(ProgressState::Started(total)),
        );
        let index = self.messages.len();
        self.add_message(message);
        self.progress.push(index);
        self.progress.len() - 1
    }

    /// How far the transfer `id` has come; `None` where no transfer has this id.
    pub fn progress_state(&self, id: usize) -> (progress: Option<ProgressState>)
        requires
            self.wf(),
        ensures
            progress == self@.progress_of(id),
    {
        if id < self.progress.len() {
            let index = self.progress[id];
            match &self.messages[index].message_type {
                MessageType::Progress(progress) => Some(*progress),
                _ => None,
            }
        } else {
            None
        }
    }

    /// Accounts for `increment` more bytes of the transfer `id`. An id that
    /// no transfer has, and a transfer that is completed, change nothing.
    pub fn progress_message_update(&mut self, id: usize, increment: u64)
        requires
            old(self).wf(),
            old(self)@.can_progress(id, increment),
        ensures
            final(self).wf(),
            final(self)@ == old(self)@.with_progress(id, increment),
    {
        if id < self.progress.len() {
            let index = self.progress[id];
            let next = match &self.messages[index].message_type {
                MessageType::Progress(progress) => progress.advanced(increment),
                _ => { return ; },
            };
            self.messages[index].message_type = MessageType::Progress(next);
            proof {
                assert(final(self)@.log =~= old(self)@.with_progress(id, increment).log);
            }
        }
    }

    /// Takes a buffer of audio samples from the peer at `user`. Playback
    /// starts with the first buffer; the peer counts as heard from then on.
    pub fn pulse_audio(&mut self, audio: Vec<u8>, user: Endpoint) -> (playback: Playback)
        requires
            old(self).wf(),
        ensures
            final(self).wf(),
            playback.start == (old(self)@.audio is None),
            playback.samples == audio,
            final(self)@ == (StateView {
                audio: Some(
                    match old(self)@.audio {
                        Some(users) => users.insert(user),
                        None => Set::<Endpoint>::empty().insert(user),
                    },
                ),
                ..old(self)@
            }),
    {
        let start = self.audio.is_none();
        let mut stream = match self.audio.take() {
            Some(stream) => stream,
            None => AudioStream::new(),
        };
        stream.add_user(user);
        self.audio = Some(stream);
        Playback { start, samples: audio }
    }

    /// Notes that the audio stream of the peer at `user` has ended. Returns
    /// whether playback has to stop: it does when the last peer heard leaves.
    pub fn stop_audio(&mut self, user: Endpoint) -> (stop: bool)
        requires
            old(self).wf(),
        ensures
            final(self).wf(),
            stop == (old(self)@.audio matches Some(users) && users.remove(user)
                == Set::<Endpoint>::empty()),
            final(self)@ == (StateView {
                audio: match old(self)@.audio {
                    Some(users) => if users.remove(user) == Set::<Endpoint>::empty() {
                        None
                    } else {
                        Some(users.remove(user))
                    },
                    None => None,
                },
                ..old(self)@
            }),
    {
        match self.audio.take() {
            Some(stream) => {
                let mut stream = stream;
                stream.remove_user(user);
                if stream.is_idle() {
                    true
                } else {
                    self.audio = Some(stream);
                    false
                }
            },
            None => false,
        }
    }

    /// Whether the outbound video stream has been asked to stop.
    pub fn stop_stream(&self) -> (stop: bool)
        ensures
            stop == self@.stop_stream,
    {
        self.stop_stream
    }

    /// Raises or clears the request to stop the outbound video stream.
    pub fn set_stop_stream(&mut self, stop: bool)
        ensures
            final(self)@ == (StateView { stop_stream: stop, ..old(self)@ }),
    {
        self.stop_stream = stop;
    }

    /// Whether an outbound video stream is scheduled.
    pub fn streaming(&self) -> (streaming: bool)
        ensures
            streaming == self@.streaming,
    {
        self.streaming
    }

    /// Notes whether an outbound video stream is scheduled.
    pub fn set_streaming(&mut self, streaming: bool)
        ensures
            final(self)@ == (StateView { streaming, ..old(self)@ }),
    {
        self.streaming = streaming;
    }

    /// Whether an outbound audio stream is scheduled.
    pub fn recording(&self) -> (recording: bool)
        ensures
            recording == self@.recording,
    {
        self.recording
    }

    /// Notes whether an outbound audio stream is scheduled.
    pub fn set_recording(&mut self, recording: bool)
        ensures
            final(self)@ == (StateView { recording, ..old(self)@ }),
    {
        self.recording = recording;
    }

    /// Whether the outbound audio stream has been asked to stop.
    pub fn stop_audio_requested(&self) -> (stop: bool)
        ensures
            stop == self@.stop_audio,
    {
        self.stop_audio
    }

    /// Raises or clears the request to stop the outbound audio stream.
    pub fn set_stop_audio(&mut self, stop: bool)
        ensures
            final(self)@ == (StateView { stop_audio: stop, ..old(self)@ }),
    {
        self.stop_audio = stop;
    }

    /// Window of each peer that streams video.
    pub fn windows(&self) -> (windows: &HashMap<Endpoint, Window>)
        ensures
            windows@.map_values(|window: Window| window@) == self@.windows,
    {
        &self.windows
    }

    /// Opens a window for the peer at `endpoint` unless it has one.
    pub fn open_window(&mut self, endpoint: Endpoint, width: usize, height: usize)
        ensures
            final(self)@ == (StateView {
                windows: if old(self)@.windows.contains_key(endpoint) {
                    old(self)@.windows
                } else {
                    old(self)@.windows.insert(
                        endpoint,
                        WindowView { data: Seq::empty(), width, height },
                    )
                },
                ..old(self)@
            }),
    {
        if !self.windows.contains_key(&endpoint) {
            let window = Window::new(width, height);
            proof {
                lemma_windows_insert(self.windows@, endpoint, window);
            }
            self.windows.insert(endpoint, window);
        } else {
            assert(self@.windows.contains_key(endpoint));
        }
    }

    /// Closes the window of the peer at `endpoint`, if it has one.
    pub fn close_window(&mut self, endpoint: Endpoint)
        ensures
            final(self)@ == (StateView {
                windows: old(self)@.windows.remove(endpoint),
                ..old(self)@
            }),
    {
        proof {
            lemma_windows_remove(self.windows@, endpoint);
        }
        self.windows.remove(&endpoint);
    }

    /// Shows a new frame in the window of the peer at `endpoint`.
    pub fn update_window(&mut self, endpoint: Endpoint, data: Vec<u8>, width: usize, height: usize)
        requires
            old(self)@.windows.contains_key(endpoint),
        ensures
            final(self)@ == (StateView {
                windows: old(self)@.windows.insert(
                    endpoint,
                    WindowView { data: data@, width, height },
                ),
                ..old(self)@
            }),
    {
        let window = Window { data, width, height };
        proof {
            lemma_windows_insert(self.windows@, endpoint, window);
        }
        self.windows.insert(endpoint, window);
    }
}


/// A change of the peer registry.
pub enum RegistryOp {
    /// A peer was registered at the endpoint under the name.
    Connect(Endpoint, Seq<char>),
    /// The peer at the endpoint was forgotten.
    Disconnect(Endpoint),
}

/// The registry after one change.
pub open spec fn registry_apply(users: Map<Endpoint, Seq<char>>, op: RegistryOp) -> Map<
    Endpoint,
    Seq<char>,
> {
    match op {
        RegistryOp::Connect(endpoint, name) => users.insert(endpoint, name),
        RegistryOp::Disconnect(endpoint) => users.remove(endpoint),
    }
}

/// The registry after a run of changes, made in order from an empty registry.
pub open spec fn registry_after(ops: Seq<RegistryOp>) -> Map<Endpoint, Seq<char>>
    decreases ops.len(),
{
    if ops.len() == 0 {
        Map::empty()
    } else {
        registry_apply(registry_after(ops.drop_last()), ops.last())
    }
}

/// Whether the change at `i` registers `endpoint` and no later change of
/// the run forgets it.
pub open spec fn registers(ops: Seq<RegistryOp>, i: int, endpoint: Endpoint) -> bool {
    &&& 0 <= i < ops.len()
    &&& ops[i] matches RegistryOp::Connect(e, _) && e == endpoint
    &&& forall|j: int| i < j < ops.len() ==> #[trigger] ops[j] != RegistryOp::Disconnect(endpoint)
}

/// [`State::connected_user`] and [`State::disconnected_user`] change the
/// registry as [`registry_apply`] says.
pub proof fn lemma_registry_changes(
    state: StateView,
    stamps: StateView,
    endpoint: Endpoint,
    name: Seq<char>,
)
    ensures
        state.with_user(stamps, endpoint, name).users == registry_apply(
            state.users,
            RegistryOp::Connect(endpoint, name),
        ),
        state.without_user(stamps, endpoint).users == registry_apply(
            state.users,
            RegistryOp::Disconnect(endpoint),
        ),
{
    if !state.users.contains_key(endpoint) {
        assert(state.users.remove(endpoint) =~= state.users);
    }
}

/// Whatever peers connect and disconnect, the registry holds an endpoint
/// exactly if the endpoint was registered and not forgotten since. So it
/// holds none that was never registered, and none after it was forgotten.
pub proof fn lemma_registry_follows_connections(ops: Seq<RegistryOp>, endpoint: Endpoint)
    ensures
        registry_after(ops).contains_key(endpoint) <==> exists|i: int|
            registers(ops, i, endpoint),
    decreases ops.len(),
{
    if ops.len() == 0 {
        assert(!registry_after(ops).contains_key(endpoint));
        assert forall|i: int| !registers(ops, i, endpoint) by {}
    } else {
        let before = ops.drop_last();
        let last = ops.len() - 1;
        lemma_registry_follows_connections(before, endpoint);
        match ops.last() {
            RegistryOp::Connect(e, _) => {
                if e == endpoint {
                    assert(registers(ops, last, endpoint));
                } else {
                    lemma_registers_extends(ops, endpoint);
                }
            },
            RegistryOp::Disconnect(e) => {
                if e == endpoint {
                    assert forall|i: int| !registers(ops, i, endpoint) by {
                        if 0 <= i < last {
                            assert(ops[last] == RegistryOp::Disconnect(endpoint));
                        }
                    }
                } else {
                    lemma_registers_extends(ops, endpoint);
                }
            },
        }
    }
}

proof fn lemma_registers_extends(ops: Seq<RegistryOp>, endpoint: Endpoint)
    requires
        ops.len() > 0,
        match ops.last() {
            RegistryOp::Connect(e, _) => e != endpoint,
            RegistryOp::Disconnect(e) => e != endpoint,
        },
    ensures
        (exists|i: int| registers(ops, i, endpoint)) <==> (exists|i: int|
            registers(ops.drop_last(), i, endpoint)),
{
    let before = ops.drop_last();
    if exists|i: int| registers(ops, i, endpoint) {
        let i = choose|i: int| registers(ops, i, endpoint);
        assert(before[i] == ops[i]);
        assert forall|j: int| i < j < before.len() implies #[trigger] before[j]
            != RegistryOp::Disconnect(endpoint) by {
            assert(before[j] == ops[j]);
        }
        assert(registers(before, i, endpoint));
    }
    if exists|i: int| registers(before, i, endpoint) {
        let i = choose|i: int| registers(before, i, endpoint);
        assert(before[i] == ops[i]);
        assert forall|j: int| i < j < ops.len() implies #[trigger] ops[j]
            != RegistryOp::Disconnect(endpoint) by {
            if j < before.len() {
                assert(before[j] == ops[j]);
            }
        }
        assert(registers(ops, i, endpoint));
    }
}

/// An update of a transfer that is completed, or of an id that no transfer
/// has, changes nothing.
pub proof fn lemma_finished_transfer_ignores_updates(state: StateView, id: usize, delta: u64)
    requires
        state.wf(),
        state.progress_of(id) is None || state.progress_of(id) == Some(ProgressState::Completed),
    ensures
        state.with_progress(id, delta) == state,
{
    if state.progress_of(id) is Some {
        let index = state.transfers[id as int] as int;
        assert(0 <= index < state.log.len());
        assert(state.with_progress(id, delta).log =~= state.log);
    }
}

/// A run of updates takes the transfer `id` through the states that
/// [`ProgressState::advance_all`] gives.
pub proof fn lemma_updates_advance(state: StateView, id: usize, deltas: Seq<u64>)
    requires
        state.wf(),
        state.progress_of(id) is Some,
    ensures
        updated(state, id, deltas).progress_of(id) == Some(
            state.progress_of(id)->0.advance_all(deltas),
        ),
        updated(state, id, deltas).transfers == state.transfers,
        updated(state, id, deltas).log.len() == state.log.len(),
    decreases deltas.len(),
{
    if deltas.len() > 0 {
        let next = state.with_progress(id, deltas.first());
        assert(next.wf()) by {
            assert forall|t: int| 0 <= t < next.transfers.len() implies (
            #[trigger] next.transfers[t]) < next.log.len()
                && next.log[next.transfers[t] as int].message_type is Progress by {
                assert(state.transfers[t] < state.log.len());
            }
        }
        lemma_updates_advance(next, id, deltas.drop_first());
    }
}

/// The state after a run of updates of the transfer `id`.
pub open spec fn updated(state: StateView, id: usize, deltas: Seq<u64>) -> StateView
    decreases deltas.len(),
{
    if deltas.len() == 0 {
        state
    } else {
        updated(state.with_progress(id, deltas.first()), id, deltas.drop_first())
    }
}

/// After a transfer of `total` bytes is opened, updates whose byte counts
/// add up to exactly `total` leave it completed.
pub proof fn lemma_transfer_completes(
    state: StateView,
    stamps: StateView,
    file_name: Seq<char>,
    total: u64,
    deltas: Seq<u64>,
)
    requires
        state.wf(),
        state.log.len() < usize::MAX,
        state.transfers.len() < usize::MAX,
        deltas.len() > 0,
        crate::state::progress::sum_of(deltas) == total,
    ensures
        updated(
            state.with_transfer(stamps, file_name, total),
            state.transfers.len() as usize,
            deltas,
        ).progress_of(state.transfers.len() as usize) == Some(ProgressState::Completed),
{
    let opened = state.with_transfer(stamps, file_name, total);
    let id = state.transfers.len() as usize;
    assert(opened.transfers[id as int] == state.log.len());
    assert(opened.progress_of(id) == Some(ProgressState::Started(total)));
    assert(opened.wf()) by {
        assert forall|t: int| 0 <= t < opened.transfers.len() implies (
        #[trigger] opened.transfers[t]) < opened.log.len()
            && opened.log[opened.transfers[t] as int].message_type is Progress by {
            if t < state.transfers.len() {
                assert(state.transfers[t] < state.log.len());
            }
        }
        assert forall|i: int, j: int| 0 <= i < j < opened.transfers.len() implies (
        #[trigger] opened.transfers[i]) < (#[trigger] opened.transfers[j]) by {
            if j < state.transfers.len() {
                assert(state.transfers[i] < state.transfers[j]);
            } else {
                assert(state.transfers[i] < state.log.len());
            }
        }
    }
    lemma_updates_advance(opened, id, deltas);
    crate::state::progress::lemma_exact_total_completes(total, deltas);
}


/// A name keeps its identity number for good, and a new name gets a number
/// that no name has had before.
pub proof fn lemma_identity_numbers_are_not_reused(
    state: StateView,
    stamps: StateView,
    endpoint: Endpoint,
    user: Seq<char>,
    other: Seq<char>,
)
    requires
        state.wf(),
        state.user_ids.contains_key(other),
    ensures
        state.with_user(stamps, endpoint, user).user_ids.contains_key(user),
        state.with_user(stamps, endpoint, user).user_ids.contains_key(other),
        state.with_user(stamps, endpoint, user).user_ids[other] == state.user_ids[other],
        other != user ==> state.with_user(stamps, endpoint, user).user_ids[user]
            != state.user_ids[other],
{
}

/// In a text of characters that take one column each, the cursor stands
/// where counting says: as many full rows down as the panel's width goes
/// into the number of characters, and the rest to the right.
pub proof fn lemma_cursor_of_narrow_text(chars: Seq<char>, width: int)
    requires
        width > 0,
        forall|i: int| 0 <= i < chars.len() ==> columns(#[trigger] chars[i]) == 1,
    ensures
        cursor_walk(chars, width) == (
            (chars.len() as int) % width,
            (chars.len() as int) / width,
        ),
    decreases chars.len(),
{
    if chars.len() > 0 {
        let before = chars.drop_last();
        assert forall|i: int| 0 <= i < before.len() implies columns(#[trigger] before[i])
            == 1 by {
            assert(before[i] == chars[i]);
        }
        lemma_cursor_of_narrow_text(before, width);
        let n = before.len() as int;
        vstd::arithmetic::div_mod::lemma_fundamental_div_mod(n, width);
        vstd::arithmetic::div_mod::lemma_fundamental_div_mod(n + 1, width);
        vstd::arithmetic::div_mod::lemma_mod_bound(n, width);
        vstd::arithmetic::div_mod::lemma_mod_bound(n + 1, width);
        let q = n / width;
        let r = n % width;
        if r + 1 == width {
            assert(n + 1 == width * (q + 1)) by (nonlinear_arith)
                requires
                    n == width * q + r,
                    r + 1 == width,
            ;
            vstd::arithmetic::div_mod::lemma_fundamental_div_mod_converse(n + 1, width, q + 1, 0);
        } else {
            vstd::arithmetic::div_mod::lemma_fundamental_div_mod_converse(n + 1, width, q, r + 1);
        }
    } else {
        vstd::arithmetic::div_mod::lemma_fundamental_div_mod_converse(0, width, 0, 0);
    }
}

} // verus!
