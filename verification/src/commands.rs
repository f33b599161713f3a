//! The command surface: lines that begin with the command prefix name a
//! verb, followed by parameters quoted as for a shell.

pub mod send_audio;
pub mod send_file;
pub mod send_stream;

use crate::commands::send_audio::{SendAudioCommand, StopAudioCommand};
use crate::commands::send_file::SendFileCommand;
use crate::commands::send_stream::{SendStreamCommand, StopStreamCommand};
use crate::util::{chars_of, string_of_range, texts};
use shellwords::MismatchedQuotes;
use vstd::prelude::*;
use vstd::string::*;

verus! {

/// The character that begins a command line.
pub const COMMAND_PREFIX: char = '?';

/// Whether a character has the Unicode property `White_Space`, which is
/// what `char::is_whitespace` tells.
pub uninterp spec fn white_space(c: char) -> bool;

/// `char::is_whitespace` depends on the character alone; the space is
/// white space.
pub assume_specification[ char::is_whitespace ](c: char) -> (b: bool)
    ensures
        b == white_space(c),
        c == ' ' ==> b,
;

/// The words into which `shellwords::split` splits a text as a Bourne shell
/// would; `None` where a quote is left open.
pub uninterp spec fn shell_words(input: Seq<char>) -> Option<Seq<Seq<char>>>;

/// `shellwords::MismatchedQuotes`, the error of a text with an open quote.
#[verifier::external_type_specification]
#[verifier::external_body]
pub struct ExMismatchedQuotes(MismatchedQuotes);

/// Calls `shellwords::split`, which matches the text against fixed patterns:
/// the result depends on the text alone.
#[verifier::external_body]
fn shell_split(input: &str) -> (words: Result<Vec<String>, MismatchedQuotes>)
    ensures
        match words {
            Ok(words) => shell_words(input@) == Some(texts(words@)),
            Err(_) => shell_words(input@) is None,
        },
{
    shellwords::split(input)
}

/// Why a command line names no action.
#[derive(Clone, Copy, Debug, PartialEq, Eq, Structural)]
pub enum CommandError {
    /// A quote in the parameters is left open.
    MismatchedQuotes,
    /// The command needs a file and none is named.
    NoFileSpecified,
}

impl CommandError {
    /// The text that tells the user of the error.
    pub open spec fn text(self) -> Seq<char> {
        match self {
            CommandError::MismatchedQuotes => "Mismatched quotes"@,
            CommandError::NoFileSpecified => "No file specified"@,
        }
    }

    /// The text that tells the user of the error.
    pub fn message(&self) -> (message: String)
        ensures
            message@ == self.text(),
    {
        match self {
            CommandError::MismatchedQuotes => "Mismatched quotes".to_owned(),
            CommandError::NoFileSpecified => "No file specified".to_owned(),
        }
    }
}

/// What a command asks for. Whoever acquires the resources makes an action
/// of it.
#[derive(Clone, Debug, PartialEq, Eq)]
pub enum ActionRequest {
    /// Send the file at this path.
    SendFile(String),
    /// Start the video stream.
    SendStream,
    /// Stop the video stream.
    StopStream,
    /// Start the audio stream.
    SendAudio,
    /// Stop the audio stream.
    StopAudio,
}

/// Mathematical model of an [`ActionRequest`].
pub enum ActionRequestView {
    SendFile(Seq<char>),
    SendStream,
    StopStream,
    SendAudio,
    StopAudio,
}

impl View for ActionRequest {
    type V = ActionRequestView;

    open spec fn view(&self) -> ActionRequestView {
        match self {
            ActionRequest::SendFile(path) => ActionRequestView::SendFile(path@),
            ActionRequest::SendStream => ActionRequestView::SendStream,
            ActionRequest::StopStream => ActionRequestView::StopStream,
            ActionRequest::SendAudio => ActionRequestView::SendAudio,
            ActionRequest::StopAudio => ActionRequestView::StopAudio,
        }
    }
}

/// The commands that can be registered.
#[derive(Clone, Copy, Debug, PartialEq, Eq, Structural)]
pub enum Command {
    SendFile(SendFileCommand),
    SendStream(SendStreamCommand),
    StopStream(StopStreamCommand),
    SendAudio(SendAudioCommand),
    StopAudio(StopAudioCommand),
}

impl Command {
    /// The verb of the command.
    pub open spec fn verb(self) -> Seq<char> {
        match self {
            Command::SendFile(_) => "send"@,
            Command::SendStream(_) => "startstream"@,
            Command::StopStream(_) => "stopstream"@,
            Command::SendAudio(_) => "sendaudio"@,
            Command::StopAudio(_) => "stopaudio"@,
        }
    }

    /// What the command asks for, given its parameters.
    pub open spec fn parsed(self, params: Seq<Seq<char>>) -> Result<
        ActionRequestView,
        CommandError,
    > {
        match self {
            Command::SendFile(_) => SendFileCommand::parsed(params),
            Command::SendStream(_) => Ok(ActionRequestView::SendStream),
            Command::StopStream(_) => Ok(ActionRequestView::StopStream),
            Command::SendAudio(_) => Ok(ActionRequestView::SendAudio),
            Command::StopAudio(_) => Ok(ActionRequestView::StopAudio),
        }
    }

    /// The verb of the command.
    pub fn name(&self) -> (name: &'static str)
        ensures
            name@ == self.verb(),
    {
        match self {
            Command::SendFile(command) => command.name(),
            Command::SendStream(command) => command.name(),
            Command::StopStream(command) => command.name(),
            Command::SendAudio(command) => command.name(),
            Command::StopAudio(command) => command.name(),
        }
    }

    /// Reads the parameters of the command.
    pub fn parse_params(&self, params: Vec<String>) -> (request: Result<
        ActionRequest,
        CommandError,
    >)
        ensures
            match request {
                Ok(request) => self.parsed(texts(params@)) == Ok::<
                    ActionRequestView,
                    CommandError,
                >(request@),
                Err(e) => self.parsed(texts(params@)) == Err::<ActionRequestView, CommandError>(
                    e,
                ),
            },
    {
        match self {
            Command::SendFile(command) => command.parse_params(params),
            Command::SendStream(command) => command.parse_params(params),
            Command::StopStream(command) => command.parse_params(params),
            Command::SendAudio(command) => command.parse_params(params),
            Command::StopAudio(command) => command.parse_params(params),
        }
    }
}

/// The command that a verb names, if it names one.
pub open spec fn named(verb: Seq<char>) -> Option<Command> {
    if verb == "send"@ {
        Some(Command::SendFile(SendFileCommand))
    } else if verb == "startstream"@ {
        Some(Command::SendStream(SendStreamCommand))
    } else if verb == "stopstream"@ {
        Some(Command::StopStream(StopStreamCommand))
    } else if verb == "sendaudio"@ {
        Some(Command::SendAudio(SendAudioCommand))
    } else if verb == "stopaudio"@ {
        Some(Command::StopAudio(StopAudioCommand))
    } else {
        None
    }
}

/// Every command is the one that its verb names.
pub proof fn lemma_named(command: Command)
    ensures
        named(command.verb()) == Some(command),
{
    reveal_strlit("send");
    reveal_strlit("startstream");
    reveal_strlit("stopstream");
    reveal_strlit("sendaudio");
    reveal_strlit("stopaudio");
    assert("send"@.len() == 4);
    assert("startstream"@.len() == 11);
    assert("stopstream"@.len() == 10);
    assert("sendaudio"@.len() == 9);
    assert("stopaudio"@.len() == 9);
    assert("sendaudio"@[1] == 'e');
    assert("stopaudio"@[1] == 't');
    match command {
        Command::SendFile(c) => {
            assert(c == SendFileCommand);
        },
        Command::SendStream(c) => {
            assert(c == SendStreamCommand);
        },
        Command::StopStream(c) => {
            assert(c == StopStreamCommand);
        },
        Command::SendAudio(c) => {
            assert(c == SendAudioCommand);
        },
        Command::StopAudio(c) => {
            assert(c == StopAudioCommand);
        },
    }
}

/// No two commands share a verb.
pub proof fn lemma_verbs_differ(a: Command, b: Command)
    requires
        a.verb() == b.verb(),
    ensures
        a == b,
{
    lemma_named(a);
    lemma_named(b);
}

/// Number of characters of `text` before its first white space.
pub open spec fn word_len(text: Seq<char>) -> nat
    decreases text.len(),
{
    if text.len() == 0 || white_space(text[0]) {
        0
    } else {
        1 + word_len(text.drop_first())
    }
}

/// A command line, taken apart.
pub struct CommandLine {
    /// What stands between the prefix and the first white space.
    pub verb: Seq<char>,
    /// What stands behind the first white space.
    pub params: Seq<char>,
}

/// Takes a line apart if it begins with the command prefix.
pub open spec fn command_line(input: Seq<char>) -> Option<CommandLine> {
    if input.len() > 0 && input[0] == COMMAND_PREFIX {
        let body = input.drop_first();
        let n = word_len(body) as int;
        Some(
            CommandLine {
                verb: body.take(n),
                params: if n < body.len() {
                    body.skip(n + 1)
                } else {
                    Seq::empty()
                },
            },
        )
    } else {
        None
    }
}

/// Whether `input` begins with the command prefix.
pub open spec fn is_command(input: Seq<char>) -> bool {
    input.len() > 0 && input[0] == COMMAND_PREFIX
}

/// What a line asks for, given the commands that are registered: nothing
/// where the line is no command line or its verb names no registered
/// command, else what the command makes of the parameters.
pub open spec fn found(registered: Set<Command>, input: Seq<char>) -> Option<
    Result<ActionRequestView, CommandError>,
> {
    match command_line(input) {
        Some(line) => match named(line.verb) {
            Some(command) => if registered.contains(command) {
                match shell_words(line.params) {
                    Some(words) => Some(command.parsed(words)),
                    None => Some(Err(CommandError::MismatchedQuotes)),
                }
            } else {
                None
            },
            None => None,
        },
        None => None,
    }
}

/// Whether `input` begins with the command prefix.
pub fn is_command_line(input: &str) -> (yes: bool)
    ensures
        yes == is_command(input@),
{
    let mut chars = input.chars();
    match chars.next() {
        Some(first) => first == COMMAND_PREFIX,
        None => false,
    }
}

proof fn lemma_word_len(text: Seq<char>, n: nat)
    requires
        n <= text.len(),
        forall|j: int| 0 <= j < n ==> !white_space(#[trigger] text[j]),
        n == text.len() || white_space(text[n as int]),
    ensures
        word_len(text) == n,
    decreases n,
{
    if n > 0 {
        let rest = text.drop_first();
        assert forall|j: int| 0 <= j < n - 1 implies !white_space(#[trigger] rest[j]) by {
            assert(rest[j] == text[j + 1]);
        }
        lemma_word_len(rest, (n - 1) as nat);
    }
}

/// The table of the commands that a line can name.
pub struct CommandManager {
    parsers: Vec<Command>,
}

impl View for CommandManager {
    type V = Set<Command>;

    closed spec fn view(&self) -> Set<Command> {
        self.parsers@.to_set()
    }
}

impl Default for CommandManager {
    fn default() -> (manager: CommandManager)
        ensures
            manager@ == Set::<Command>::empty(),
    {
        CommandManager::new()
    }
}

impl CommandManager {
    /// A table without commands.
    pub fn new() -> (manager: CommandManager)
        ensures
            manager@ == Set::<Command>::empty(),
    {
        let manager = CommandManager { parsers: Vec::new() };
        assert(manager.parsers@.to_set() =~= Set::<Command>::empty());
        manager
    }

    /// The table with `command_parser` registered under its verb.
    pub fn with(self, command_parser: Command) -> (manager: CommandManager)
        ensures
            manager@ == self@.insert(command_parser),
    {
        let mut manager = self;
        if manager.lookup(command_parser.name()).is_none() {
            manager.parsers.push(command_parser);
            assert(manager.parsers@.to_set() =~= self.parsers@.to_set().insert(command_parser))
                by {
                assert forall|c: Command| manager.parsers@.contains(c) implies self.parsers@.contains(
                    c,
                ) || c == command_parser by {
                    let i = choose|i: int|
                        0 <= i < manager.parsers@.len() && manager.parsers@[i] == c;
                    if i < self.parsers@.len() {
                        assert(self.parsers@[i] == c);
                    }
                }
                assert forall|c: Command|
                    self.parsers@.contains(c) || c == command_parser implies manager.parsers@.contains(
                    c,
                ) by {
                    if self.parsers@.contains(c) {
                        let i = choose|i: int| 0 <= i < self.parsers@.len() && self.parsers@[i] == c;
                        assert(manager.parsers@[i] == c);
                    } else {
                        assert(manager.parsers@[self.parsers@.len() as int] == c);
                    }
                }
            }
        } else {
            proof {
                lemma_named(command_parser);
                assert(manager@ =~= self@.insert(command_parser));
            }
        }
        manager
    }

    /// The registered command that `verb` names, where there is one.
    fn lookup(&self, verb: &str) -> (command: Option<Command>)
        ensures
            match command {
                Some(command) => named(verb@) == Some(command) && self@.contains(command),
                None => named(verb@) matches Some(command) ==> !self@.contains(command),
            },
    {
        let mut i: usize = 0;
        while i < self.parsers.len()
            invariant
                i <= self.parsers.len(),
                forall|j: int| 0 <= j < i ==> (#[trigger] self.parsers@[j]).verb() != verb@,
            decreases self.parsers.len() - i,
        {
            let name = self.parsers[i].name();
            if verb.to_owned() == name.to_owned() {
                proof {
                    let command = self.parsers@[i as int];
                    assert(self.parsers@.contains(command));
                    lemma_named(command);
                }
                return Some(self.parsers[i]);
            }
            i += 1;
        }
        proof {
            if named(verb@) is Some && self@.contains(named(verb@)->0) {
                let command = named(verb@)->0;
                let j = choose|j: int| 0 <= j < self.parsers@.len() && self.parsers@[j] == command;
                lemma_named(command);
                assert(self.parsers@[j].verb() != verb@);
            }
        }
        None
    }

    /// What `input` asks for: nothing where it is no command line or names no
    /// registered command; else the request that the command makes of the
    /// parameters, or the reason why it makes none.
    pub fn find_command_action(&self, input: &str) -> (action: Option<
        Result<ActionRequest, CommandError>,
    >)
        ensures
            match action {
                Some(Ok(request)) => found(self@, input@) == Some(
                    Ok::<ActionRequestView, CommandError>(request@),
                ),
                Some(Err(e)) => found(self@, input@) == Some(
                    Err::<ActionRequestView, CommandError>(e),
                ),
                None => found(self@, input@) is None,
            },
    {
        let chars = chars_of(input);
        if chars.len() == 0 || chars[0] != COMMAND_PREFIX {
            return None;
        }
        let ghost body = input@.drop_first();
        let mut end: usize = 1;
        while end < chars.len() && !chars[end].is_whitespace()
            invariant
                1 <= end <= chars.len(),
                chars@ == input@,
                body == input@.drop_first(),
                forall|j: int| 0 <= j < end - 1 ==> !white_space(#[trigger] body[j]),
            decreases chars.len() - end,
        {
            end += 1;
        }
        proof {
            lemma_word_len(body, (end - 1) as nat);
        }
        let verb = string_of_range(&chars, 1, end);
        let params = if end < chars.len() {
            string_of_range(&chars, end + 1, chars.len())
        } else {
            String::new()
        };
        proof {
            let line = command_line(input@)->0;
            assert(verb@ =~= line.verb);
            assert(params@ =~= line.params);
        }
        match self.lookup(verb.as_str()) {
            Some(parser) => match shell_split(params.as_str()) {
                Ok(words) => Some(parser.parse_params(words)),
                Err(_) => Some(Err(CommandError::MismatchedQuotes)),
            },
            None => None,
        }
    }
}

} // verus!
