use termchat::commands::send_audio::{SendAudioCommand, StopAudioCommand};
use termchat::commands::send_file::SendFileCommand;
use termchat::commands::send_stream::{SendStreamCommand, StopStreamCommand};
use termchat::commands::{
    is_command_line, ActionRequest, Command, CommandError, CommandManager, COMMAND_PREFIX,
};

fn manager() -> CommandManager {
    CommandManager::new()
        .with(Command::SendFile(SendFileCommand))
        .with(Command::SendStream(SendStreamCommand))
        .with(Command::StopStream(StopStreamCommand))
        .with(Command::SendAudio(SendAudioCommand))
        .with(Command::StopAudio(StopAudioCommand))
}

#[test]
fn a_quoted_path_is_one_argument() {
    assert_eq!(
        manager().find_command_action("?send \"my file.txt\""),
        Some(Ok(ActionRequest::SendFile("my file.txt".to_string())))
    );
}

#[test]
fn the_first_argument_names_the_file() {
    assert_eq!(
        manager().find_command_action("?send a.txt b.txt"),
        Some(Ok(ActionRequest::SendFile("a.txt".to_string())))
    );
    assert_eq!(
        manager().find_command_action("?send   'it''s' "),
        Some(Ok(ActionRequest::SendFile("its".to_string())))
    );
    assert_eq!(
        manager().find_command_action("?send a\\ b"),
        Some(Ok(ActionRequest::SendFile("a b".to_string())))
    );
}

#[test]
fn any_white_space_ends_the_verb() {
    assert_eq!(
        manager().find_command_action("?send\ta.txt"),
        Some(Ok(ActionRequest::SendFile("a.txt".to_string())))
    );
    assert_eq!(
        manager().find_command_action("?send\u{a0}a.txt"),
        Some(Ok(ActionRequest::SendFile("a.txt".to_string())))
    );
}

#[test]
fn send_without_a_file_is_an_error() {
    assert_eq!(manager().find_command_action("?send"), Some(Err(CommandError::NoFileSpecified)));
    assert_eq!(manager().find_command_action("?send   "), Some(Err(CommandError::NoFileSpecified)));
}

#[test]
fn an_open_quote_is_an_error() {
    assert_eq!(
        manager().find_command_action("?send \"my file.txt"),
        Some(Err(CommandError::MismatchedQuotes))
    );
    assert_eq!(
        manager().find_command_action("?stopstream 'x"),
        Some(Err(CommandError::MismatchedQuotes))
    );
}

#[test]
fn errors_have_a_text() {
    assert_eq!(CommandError::MismatchedQuotes.message(), "Mismatched quotes");
    assert_eq!(CommandError::NoFileSpecified.message(), "No file specified");
}

#[test]
fn an_unknown_verb_names_no_action() {
    assert_eq!(manager().find_command_action("?unknown"), None);
    assert_eq!(manager().find_command_action("?"), None);
    assert_eq!(manager().find_command_action("? send a"), None);
    assert_eq!(manager().find_command_action("?sendx a"), None);
    assert_eq!(manager().find_command_action("?Send a"), None);
}

#[test]
fn a_line_without_the_prefix_is_no_command() {
    assert_eq!(manager().find_command_action("send a.txt"), None);
    assert_eq!(manager().find_command_action(" ?send a.txt"), None);
    assert_eq!(manager().find_command_action(""), None);
    assert_eq!(manager().find_command_action("hello ?send"), None);
}

#[test]
fn the_stream_commands_ignore_their_parameters() {
    assert_eq!(manager().find_command_action("?startstream"), Some(Ok(ActionRequest::SendStream)));
    assert_eq!(manager().find_command_action("?stopstream now"), Some(Ok(ActionRequest::StopStream)));
    assert_eq!(manager().find_command_action("?sendaudio"), Some(Ok(ActionRequest::SendAudio)));
    assert_eq!(manager().find_command_action("?stopaudio a b"), Some(Ok(ActionRequest::StopAudio)));
}

#[test]
fn only_registered_commands_are_found() {
    let manager = CommandManager::new().with(Command::StopStream(StopStreamCommand));
    assert_eq!(manager.find_command_action("?send a.txt"), None);
    assert_eq!(manager.find_command_action("?stopstream"), Some(Ok(ActionRequest::StopStream)));
    assert_eq!(CommandManager::new().find_command_action("?send a.txt"), None);
}

#[test]
fn registering_twice_changes_nothing() {
    let manager = CommandManager::new()
        .with(Command::SendFile(SendFileCommand))
        .with(Command::SendFile(SendFileCommand));
    assert_eq!(
        manager.find_command_action("?send a"),
        Some(Ok(ActionRequest::SendFile("a".to_string())))
    );
}

#[test]
fn commands_have_their_verbs() {
    assert_eq!(SendFileCommand.name(), "send");
    assert_eq!(SendStreamCommand.name(), "startstream");
    assert_eq!(StopStreamCommand.name(), "stopstream");
    assert_eq!(SendAudioCommand.name(), "sendaudio");
    assert_eq!(StopAudioCommand.name(), "stopaudio");
    assert_eq!(Command::SendAudio(SendAudioCommand).name(), "sendaudio");
}

#[test]
fn parameters_are_read_by_each_command() {
    assert_eq!(
        SendFileCommand.parse_params(vec!["a".to_string(), "b".to_string()]),
        Ok(ActionRequest::SendFile("a".to_string()))
    );
    assert_eq!(SendFileCommand.parse_params(vec![]), Err(CommandError::NoFileSpecified));
    assert_eq!(SendStreamCommand.parse_params(vec![]), Ok(ActionRequest::SendStream));
    assert_eq!(StopStreamCommand.parse_params(vec!["x".to_string()]), Ok(ActionRequest::StopStream));
    assert_eq!(SendAudioCommand.parse_params(vec![]), Ok(ActionRequest::SendAudio));
    assert_eq!(StopAudioCommand.parse_params(vec![]), Ok(ActionRequest::StopAudio));
    assert_eq!(
        Command::SendFile(SendFileCommand).parse_params(vec![]),
        Err(CommandError::NoFileSpecified)
    );
}

#[test]
fn the_default_table_is_empty() {
    assert_eq!(CommandManager::default().find_command_action("?send a"), None);
}

#[test]
fn command_lines_begin_with_the_prefix() {
    assert_eq!(COMMAND_PREFIX, '?');
    assert!(is_command_line("?send"));
    assert!(is_command_line("?"));
    assert!(is_command_line("??"));
    assert!(!is_command_line(""));
    assert!(!is_command_line(" ?send"));
    assert!(!is_command_line("send?"));
}
