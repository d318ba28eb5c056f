use rucli::netconf::error::NETCONFError;
use rucli::netconf::reply::{
    decode_command, decode_commit, decode_diff, decode_entries, decode_load, decode_lock,
    decode_unlock, is_warning, warning_line,
};
use rucli::netconf::xml::{
    LoadConfigurationResults, LoadConfigurationResultsEnum, RPCError, RPCReply, RPCReplyCommand,
};

fn problem(severity: &str, path: Option<&str>, message: &str) -> RPCError {
    RPCError {
        error_severity: severity.to_string(),
        error_path: path.map(str::to_string),
        error_message: message.to_string(),
        error_info: None,
        source_daemon: None,
    }
}

fn document(elements: Vec<RPCReplyCommand>) -> RPCReply {
    RPCReply { rpc_reply: elements }
}

#[test]
fn is_warning_goes_by_the_exact_severity() {
    assert!(is_warning(&problem("warning", None, "")));
    assert!(!is_warning(&problem("error", None, "")));
    assert!(!is_warning(&problem("WARNING", None, "")));
    assert!(!is_warning(&problem(" warning", None, "")));
    assert!(!is_warning(&problem("", None, "")));
}

#[test]
fn warning_line_names_the_path_if_there_is_one() {
    assert_eq!(warning_line(&problem("warning", Some("[edit]"), "msg")), "Warning: [edit] msg");
    assert_eq!(warning_line(&problem("warning", None, "msg")), "Warning: msg");
    assert_eq!(warning_line(&problem("warning", Some(""), "")), "Warning:  ");
    assert_eq!(warning_line(&problem("error", None, "a\nb")), "Warning: a\nb");
}

#[test]
fn decode_command_appends_to_the_log() {
    let mut log = vec!["earlier".to_string()];
    let result = decode_command(
        document(vec![
            RPCReplyCommand::RPCError(problem("warning", None, "w")),
            RPCReplyCommand::Other("{}".to_string()),
        ]),
        false,
        &mut log,
    );
    assert_eq!(result, Ok("{}".to_string()));
    assert_eq!(log, vec!["earlier".to_string(), "Warning: w".to_string()]);
}

#[test]
fn decode_command_stops_logging_where_it_fails() {
    let mut log = Vec::new();
    let result = decode_command(
        document(vec![
            RPCReplyCommand::RPCError(problem("warning", None, "first")),
            RPCReplyCommand::Okay,
            RPCReplyCommand::RPCError(problem("warning", None, "second")),
        ]),
        true,
        &mut log,
    );
    assert_eq!(result, Err(NETCONFError::UnexpectedCommand(RPCReplyCommand::Okay)));
    assert_eq!(log, vec!["Warning: first".to_string()]);
}

#[test]
fn decode_commit_with_and_without_tolerance() {
    let elements = vec![RPCReplyCommand::Other("note".to_string()), RPCReplyCommand::Okay];
    let mut log = Vec::new();
    assert_eq!(decode_commit(document(elements.clone()), true, &mut log), Ok(()));
    assert_eq!(
        decode_commit(document(elements), false, &mut log),
        Err(NETCONFError::UnexpectedCommand(RPCReplyCommand::Other("note".to_string())))
    );
    assert_eq!(log, Vec::<String>::new());
}

#[test]
fn decode_lock_and_unlock_differ_on_ok() {
    assert_eq!(decode_lock(document(vec![]), false), Ok(()));
    assert_eq!(decode_unlock(document(vec![])), Ok(()));
    assert_eq!(
        decode_lock(document(vec![RPCReplyCommand::Okay]), false),
        Err(NETCONFError::UnexpectedCommand(RPCReplyCommand::Okay))
    );
    assert_eq!(decode_lock(document(vec![RPCReplyCommand::Okay]), true), Ok(()));
    assert_eq!(decode_unlock(document(vec![RPCReplyCommand::Okay, RPCReplyCommand::Okay])), Ok(()));
}

#[test]
fn decode_diff_returns_the_text() {
    assert_eq!(
        decode_diff(document(vec![RPCReplyCommand::ConfigurationInformation {
            configuration_output: "+ x;".to_string()
        }])),
        Ok("+ x;".to_string())
    );
    assert_eq!(decode_diff(document(vec![])), Err(NETCONFError::MissingOk));
}

#[test]
fn decode_entries_classifies_each_entry() {
    let mut log = Vec::new();
    let entries = LoadConfigurationResults {
        load_configuration_results: vec![
            LoadConfigurationResultsEnum::RPCError(problem("warning", Some("[edit]"), "w")),
            LoadConfigurationResultsEnum::Okay,
        ],
    };
    assert_eq!(decode_entries(entries, &mut log), Ok(()));
    assert_eq!(log, vec!["Warning: [edit] w".to_string()]);
    let entries = LoadConfigurationResults {
        load_configuration_results: vec![LoadConfigurationResultsEnum::RPCError(problem(
            "error", None, "e",
        ))],
    };
    assert_eq!(
        decode_entries(entries, &mut log),
        Err(NETCONFError::DeviceError(problem("error", None, "e")))
    );
    let entries = LoadConfigurationResults { load_configuration_results: vec![] };
    assert_eq!(decode_entries(entries, &mut log), Err(NETCONFError::MissingOk));
}

#[test]
fn decode_load_reads_the_entries_of_its_results() {
    let mut log = Vec::new();
    let element = RPCReplyCommand::LoadConfigurationResults(LoadConfigurationResults {
        load_configuration_results: vec![LoadConfigurationResultsEnum::Okay],
    });
    assert_eq!(decode_load(document(vec![element]), &mut log), Ok(()));
    assert_eq!(
        decode_load(document(vec![RPCReplyCommand::Okay]), &mut log),
        Err(NETCONFError::UnexpectedCommand(RPCReplyCommand::Okay))
    );
    assert_eq!(log, Vec::<String>::new());
}
