//! The typed messages of the protocol, and the mathematical model of each.
//!
//! Every message type has a view that replaces owned strings and vectors by
//! sequences. The contracts of the engine are stated over these views.

use vstd::prelude::*;

verus! {

/// The content of a string, as contracts see it.
pub type Text = Seq<char>;

/// The content of an optional string.
pub open spec fn optional_text(value: Option<String>) -> Option<Text> {
    match value {
        Some(s) => Some(s@),
        None => None,
    }
}

/// The contents of a vector of strings, in order.
pub open spec fn texts(values: Seq<String>) -> Seq<Text> {
    values.map_values(|s: String| s@)
}

/// The capability that every outbound hello advertises.
pub open spec fn base_capability() -> Text {
    "urn:ietf:params:netconf:base:1.0"@
}

/// The hello document that opens a session, in either direction.
#[derive(Debug, Clone, PartialEq, Eq)]
pub struct Hello {
    pub capabilities: Capabilities,
    pub session_id: Option<String>,
    pub namespace: Option<String>,
}

/// The capability URIs that a hello advertises, in order.
#[derive(Debug, Clone, PartialEq, Eq)]
pub struct Capabilities {
    pub capability: Vec<String>,
}

/// Model of a hello document.
pub struct Greeting {
    pub capabilities: Seq<Text>,
    pub session_id: Option<Text>,
    pub namespace: Option<Text>,
}

impl View for Capabilities {
    type V = Seq<Text>;

    open spec fn view(&self) -> Seq<Text> {
        texts(self.capability@)
    }
}

impl View for Hello {
    type V = Greeting;

    open spec fn view(&self) -> Greeting {
        Greeting {
            capabilities: self.capabilities@,
            session_id: optional_text(self.session_id),
            namespace: optional_text(self.namespace),
        }
    }
}

/// The hello that this side sends: the base capability and nothing else.
pub open spec fn base_greeting() -> Greeting {
    Greeting { capabilities: seq![base_capability()], session_id: None, namespace: None }
}

/// The envelope of one request.
#[derive(Debug, Clone, PartialEq, Eq)]
pub struct RPC {
    pub rpc: RPCCommand,
}

/// The requests that the engine can issue.
#[derive(Debug, Clone, PartialEq, Eq)]
pub enum RPCCommand {
    /// Asks for the configuration, or for its difference to a rollback.
    GetConfiguration { format: String, rollback: Option<String>, compare: Option<String> },
    /// Runs a command and asks for its output in a format.
    Command { format: String, command: String },
    /// Asks for the lock on the configuration.
    LockConfiguration {  },
    /// Gives the lock on the configuration back.
    UnlockConfiguration {  },
    /// Loads configuration text.
    LoadConfiguration { format: String, action: String, cfg: String },
    /// Commits the loaded configuration, or confirms a commit.
    CommitConfiguration {  },
    /// Commits the loaded configuration, to be rolled back unless it is
    /// confirmed within the timeout, in seconds.
    CommitConfirmedConfiguration { confirmed: ConfigurationConfirmed, confirm_timeout: i32 },
}

/// The empty marker element of a confirmed commit.
#[derive(Debug, Clone, PartialEq, Eq)]
pub struct ConfigurationConfirmed {}

/// Model of a request.
pub enum Request {
    GetConfiguration { format: Text, rollback: Option<Text>, compare: Option<Text> },
    Command { format: Text, text: Text },
    LockConfiguration,
    UnlockConfiguration,
    LoadConfiguration { format: Text, action: Text, text: Text },
    CommitConfiguration,
    CommitConfirmedConfiguration { timeout: int },
}

impl View for ConfigurationConfirmed {
    type V = ();

    open spec fn view(&self) -> () {
        ()
    }
}

impl View for RPCCommand {
    type V = Request;

    open spec fn view(&self) -> Request {
        match *self {
            RPCCommand::GetConfiguration { format, rollback, compare } => {
                Request::GetConfiguration {
                    format: format@,
                    rollback: optional_text(rollback),
                    compare: optional_text(compare),
                }
            },
            RPCCommand::Command { format, command } => Request::Command {
                format: format@,
                text: command@,
            },
            RPCCommand::LockConfiguration {  } => Request::LockConfiguration,
            RPCCommand::UnlockConfiguration {  } => Request::UnlockConfiguration,
            RPCCommand::LoadConfiguration { format, action, cfg } => Request::LoadConfiguration {
                format: format@,
                action: action@,
                text: cfg@,
            },
            RPCCommand::CommitConfiguration {  } => Request::CommitConfiguration,
            RPCCommand::CommitConfirmedConfiguration {
                confirmed,
                confirm_timeout,
            } => Request::CommitConfirmedConfiguration { timeout: confirm_timeout as int },
        }
    }
}

impl View for RPC {
    type V = Request;

    open spec fn view(&self) -> Request {
        self.rpc@
    }
}

/// The text that a configuration element carries.
#[derive(Debug, Clone, PartialEq, Eq)]
pub struct ConfigurationInformation {
    pub configuration_text: String,
}

impl View for ConfigurationInformation {
    type V = Text;

    open spec fn view(&self) -> Text {
        self.configuration_text@
    }
}

/// One reply document: its elements in the order in which they arrived.
#[derive(Debug, Clone, PartialEq, Eq)]
pub struct RPCReply {
    pub rpc_reply: Vec<RPCReplyCommand>,
}

/// One element of a reply document.
#[derive(Debug, Clone, PartialEq, Eq)]
pub enum RPCReplyCommand {
    /// The output of a command in text form.
    Output { text: String },
    /// The results of a load.
    LoadConfigurationResults(LoadConfigurationResults),
    /// Configuration output, such as a difference.
    ConfigurationInformation { configuration_output: String },
    /// A condition that the device reports.
    RPCError(RPCError),
    /// The marker of success, `ok` on the wire.
    Okay,
    /// Text without an element around it: the output of a command in any
    /// format but text.
    Other(String),
}

/// The entries of a `load-configuration-results` element.
#[derive(Debug, Clone, PartialEq, Eq)]
pub struct LoadConfigurationResults {
    pub load_configuration_results: Vec<LoadConfigurationResultsEnum>,
}

/// One entry of a `load-configuration-results` element.
#[derive(Debug, Clone, PartialEq, Eq)]
pub enum LoadConfigurationResultsEnum {
    /// The marker of success, `ok` on the wire.
    Okay,
    /// A condition that the device reports.
    RPCError(RPCError),
}

/// A list of device errors.
#[derive(Debug, Clone, PartialEq, Eq)]
pub struct RPCErrorList {
    element: Vec<RPCError>,
}

/// A condition that the device reports.
#[derive(Debug, Clone, PartialEq, Eq)]
pub struct RPCError {
    pub error_severity: String,
    pub error_path: Option<String>,
    pub error_message: String,
    pub error_info: Option<RPCErrorInfo>,
    pub source_daemon: Option<String>,
}

/// What a device error says of the element at fault.
#[derive(Debug, Clone, PartialEq, Eq)]
pub struct RPCErrorInfo {
    pub bad_element: Option<String>,
}

/// Model of a device error. `info` is the outer option for the presence of
/// the info element, the inner one for the bad element that it may name.
pub struct DeviceError {
    pub severity: Text,
    pub path: Option<Text>,
    pub message: Text,
    pub info: Option<Option<Text>>,
    pub source: Option<Text>,
}

/// Model of one entry of a `load-configuration-results` element.
pub enum LoadResult {
    Okay,
    DeviceError(DeviceError),
}

/// Model of one element of a reply document.
pub enum ReplyElement {
    Output { text: Text },
    LoadConfigurationResults { results: Seq<LoadResult> },
    ConfigurationInformation { text: Text },
    DeviceError(DeviceError),
    Okay,
    Other { text: Text },
}

impl DeviceError {
    /// Whether the severity is `warning`. An operation that classifies
    /// device errors logs a warning and goes on; any other severity fails it.
    pub open spec fn is_warning(self) -> bool {
        self.severity == "warning"@
    }
}

impl View for RPCErrorInfo {
    type V = Option<Text>;

    open spec fn view(&self) -> Option<Text> {
        optional_text(self.bad_element)
    }
}

impl View for RPCError {
    type V = DeviceError;

    open spec fn view(&self) -> DeviceError {
        DeviceError {
            severity: self.error_severity@,
            path: optional_text(self.error_path),
            message: self.error_message@,
            info: match self.error_info {
                Some(info) => Some(info@),
                None => None,
            },
            source: optional_text(self.source_daemon),
        }
    }
}

impl View for RPCErrorList {
    type V = Seq<DeviceError>;

    closed spec fn view(&self) -> Seq<DeviceError> {
        self.element@.map_values(|e: RPCError| e@)
    }
}

impl View for LoadConfigurationResultsEnum {
    type V = LoadResult;

    open spec fn view(&self) -> LoadResult {
        match *self {
            LoadConfigurationResultsEnum::Okay => LoadResult::Okay,
            LoadConfigurationResultsEnum::RPCError(error) => LoadResult::DeviceError(error@),
        }
    }
}

impl View for LoadConfigurationResults {
    type V = Seq<LoadResult>;

    open spec fn view(&self) -> Seq<LoadResult> {
        self.load_configuration_results@.map_values(|e: LoadConfigurationResultsEnum| e@)
    }
}

impl View for RPCReplyCommand {
    type V = ReplyElement;

    open spec fn view(&self) -> ReplyElement {
        match *self {
            RPCReplyCommand::Output { text } => ReplyElement::Output { text: text@ },
            RPCReplyCommand::LoadConfigurationResults(results) => {
                ReplyElement::LoadConfigurationResults { results: results@ }
            },
            RPCReplyCommand::ConfigurationInformation {
                configuration_output,
            } => ReplyElement::ConfigurationInformation { text: configuration_output@ },
            RPCReplyCommand::RPCError(error) => ReplyElement::DeviceError(error@),
            RPCReplyCommand::Okay => ReplyElement::Okay,
            RPCReplyCommand::Other(text) => ReplyElement::Other { text: text@ },
        }
    }
}

/// The models of a sequence of reply elements, in order.
pub open spec fn elements(reply: Seq<RPCReplyCommand>) -> Seq<ReplyElement> {
    reply.map_values(|e: RPCReplyCommand| e@)
}

impl View for RPCReply {
    type V = Seq<ReplyElement>;

    open spec fn view(&self) -> Seq<ReplyElement> {
        elements(self.rpc_reply@)
    }
}

} // verus!
