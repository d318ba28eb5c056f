//! The NETCONF session engine.
//!
//! The engine owns no channel. It decides what goes on the wire and what a
//! reply means; the caller moves the bytes. One turn of an operation runs as
//! follows: the operation hands out the request; the caller encodes it,
//! frames it with [`framing::frame_rpc`] and writes it; it feeds what it
//! reads to [`NETCONFClient::receive`] until [`NETCONFClient::read`] yields
//! the reply document; it decodes the document and hands the reply, or the
//! error that kept it from getting one, to the reply half of the operation.

pub mod display;
pub mod error;
pub mod framing;
pub mod index;
pub mod laws;
pub mod quotes;
pub mod reply;
pub mod text;
pub mod xml;

use crate::netconf::error::{text_outcome, unit_outcome, FramingError, NETCONFError, NETCONFResult};
use crate::netconf::framing::{deframed, received, Deframed, Framer};
use crate::netconf::reply::{
    command_outcome, command_warnings, commit_outcome, commit_warnings, decode_command,
    decode_commit, decode_diff, decode_load, decode_lock, decode_unlock, diff_outcome,
    load_outcome, load_warnings, lock_outcome,
};
use crate::netconf::text::{join_tokens, joined, same_text};
use crate::netconf::xml::{
    base_greeting, texts, Capabilities, ConfigurationConfirmed, Hello, RPCCommand, RPCReply,
    Request, Text, RPC,
};
use vstd::pervasive::unreached;
use vstd::prelude::*;
use vstd::string::*;

verus! {

/// The operation whose reply the engine waits for.
#[derive(Debug, Clone, Copy, PartialEq, Eq, Structural)]
pub enum Operation {
    /// A command; `text` says whether it asked for the text format.
    Command { text: bool },
    Lock,
    Unlock,
    Load,
    Diff,
    Apply,
    Confirm,
}

/// Where a session stands.
#[derive(Debug, Clone, Copy, PartialEq, Eq, Structural)]
pub enum Phase {
    /// No hello has been exchanged.
    Unconnected,
    /// This side's hello is out and the peer's is awaited.
    Greeting,
    /// No request is outstanding.
    Ready,
    /// One request is outstanding.
    Awaiting(Operation),
}

/// Model of the engine.
pub struct Session {
    /// Where the session stands.
    pub phase: Phase,
    /// The bytes received that no document has consumed yet.
    pub pending: Seq<u8>,
    /// The lines logged for warnings and not yet taken by the caller.
    pub diagnostics: Seq<Text>,
    /// Whether a lock accepts the success marker in its reply.
    pub lock_accepts_ok: bool,
}

/// The session engine.
pub struct NETCONFClient {
    phase: Phase,
    framer: Framer,
    warnings: Vec<String>,
    lock_accepts_ok: bool,
}

impl View for NETCONFClient {
    type V = Session;

    closed spec fn view(&self) -> Session {
        Session {
            phase: self.phase,
            pending: self.framer.pending(),
            diagnostics: texts(self.warnings@),
            lock_accepts_ok: self.lock_accepts_ok,
        }
    }
}

impl NETCONFClient {
    /// An engine for a fresh channel: nothing exchanged, nothing received,
    /// and a lock that accepts no element in its reply.
    pub fn new() -> (client: NETCONFClient)
        ensures
            client@ == (Session {
                phase: Phase::Unconnected,
                pending: Seq::empty(),
                diagnostics: Seq::empty(),
                lock_accepts_ok: false,
            }),
    {
        let client = NETCONFClient {
            phase: Phase::Unconnected,
            framer: Framer::new(),
            warnings: Vec::new(),
            lock_accepts_ok: false,
        };
        assert(texts(client.warnings@) =~= Seq::<Text>::empty());
        client
    }

    /// Where the session stands.
    pub fn phase(&self) -> (phase: Phase)
        ensures
            phase == self@.phase,
    {
        self.phase
    }

    /// Chooses whether a lock accepts the success marker in its reply, as an
    /// unlock does. Devices differ in whether they send it.
    pub fn set_lock_accepts_ok(&mut self, accept: bool)
        ensures
            final(self)@ == (Session { lock_accepts_ok: accept, ..old(self)@ }),
    {
        self.lock_accepts_ok = accept;
    }

    /// Takes the lines logged for warnings since the last call.
    pub fn take_warnings(&mut self) -> (lines: Vec<String>)
        ensures
            texts(lines@) == old(self)@.diagnostics,
            final(self)@ == (Session { diagnostics: Seq::empty(), ..old(self)@ }),
    {
        let mut lines: Vec<String> = Vec::new();
        std::mem::swap(&mut lines, &mut self.warnings);
        assert(texts(self.warnings@) =~= Seq::<Text>::empty());
        lines
    }

    /// Takes in what one read of the channel returned. A read that returns
    /// no bytes means that the channel has closed: that is an error unless a
    /// delimiter has arrived and a document is still there to be read.
    pub fn receive(&mut self, burst: &[u8]) -> (taken: Result<(), FramingError>)
        ensures
            taken == received(old(self)@.pending, burst@),
            final(self)@ == (Session { pending: old(self)@.pending + burst@, ..old(self)@ }),
    {
        self.framer.receive(burst)
    }

    /// Takes the next document out of the bytes received, if its delimiter
    /// has arrived. The bytes after the delimiter stay for the next call.
    pub fn read(&mut self) -> (document: Result<Option<String>, FramingError>)
        ensures
            match deframed(old(self)@.pending) {
                Deframed::Incomplete => document == Ok::<Option<String>, FramingError>(None)
                    && final(self)@ == old(self)@,
                Deframed::Document { text, rest } => document matches Ok(Some(read)) && read@
                    == text && final(self)@ == (Session { pending: rest, ..old(self)@ }),
                Deframed::Garbled { rest } => document == Err::<Option<String>, FramingError>(
                    FramingError::InvalidUtf8,
                ) && final(self)@ == (Session { pending: rest, ..old(self)@ }),
            },
    {
        self.framer.read()
    }

    /// Opens the session: hands out the hello to send, which advertises the
    /// base capability and nothing else.
    pub fn init(&mut self) -> (hello: Hello)
        requires
            old(self)@.phase == Phase::Unconnected,
        ensures
            hello@ == base_greeting(),
            final(self)@ == (Session { phase: Phase::Greeting, ..old(self)@ }),
    {
        self.phase = Phase::Greeting;
        let hello = Hello {
            capabilities: Capabilities {
                capability: vec!["urn:ietf:params:netconf:base:1.0".to_string()],
            },
            namespace: None,
            session_id: None,
        };
        assert(hello.capabilities@ =~= base_greeting().capabilities);
        hello
    }

    /// Takes the peer's hello, or the error that kept the caller from getting
    /// it. Any hello that the caller could decode makes the session ready;
    /// an error leaves it unconnected.
    pub fn read_hello(&mut self, exchange: NETCONFResult<Hello>) -> (peer: NETCONFResult<Hello>)
        requires
            old(self)@.phase == Phase::Greeting,
        ensures
            peer == exchange,
            final(self)@ == (Session {
                phase: if exchange is Ok {
                    Phase::Ready
                } else {
                    Phase::Unconnected
                },
                ..old(self)@
            }),
    {
        match exchange {
            Ok(hello) => {
                self.phase = Phase::Ready;
                Ok(hello)
            },
            Err(error) => {
                self.phase = Phase::Unconnected;
                Err(error)
            },
        }
    }

    /// Issues a command in the given output format.
    pub fn send_command(&mut self, command: String, format: String) -> (request: RPC)
        requires
            old(self)@.phase == Phase::Ready,
        ensures
            request@ == (Request::Command { format: format@, text: command@ }),
            final(self)@ == (Session {
                phase: Phase::Awaiting(Operation::Command { text: format@ == "text"@ }),
                ..old(self)@
            }),
    {
        let text = same_text(format.as_str(), "text");
        self.phase = Phase::Awaiting(Operation::Command { text });
        RPC { rpc: RPCCommand::Command { command, format } }
    }

    /// Issues the command that the tokens make when joined by single spaces.
    pub fn execute(&mut self, tokens: Vec<String>, format: String) -> (request: RPC)
        requires
            old(self)@.phase == Phase::Ready,
        ensures
            request@ == (Request::Command { format: format@, text: joined(texts(tokens@)) }),
            final(self)@ == (Session {
                phase: Phase::Awaiting(Operation::Command { text: format@ == "text"@ }),
                ..old(self)@
            }),
    {
        let command = join_tokens(&tokens);
        self.send_command(command, format)
    }

    /// Takes the reply to a command and returns its output: for the text
    /// format the output element, for any other format the untyped text.
    pub fn command_reply(&mut self, exchange: NETCONFResult<RPCReply>) -> (result: NETCONFResult<
        String,
    >)
        requires
            old(self)@.phase is Awaiting,
            old(self)@.phase->Awaiting_0 is Command,
        ensures
            final(self)@.phase == Phase::Ready,
            final(self)@.pending == old(self)@.pending,
            final(self)@.lock_accepts_ok == old(self)@.lock_accepts_ok,
            match exchange {
                Ok(reply) => {
                    let text = old(self)@.phase->Awaiting_0->text;
                    &&& text_outcome(result) == command_outcome(reply@, text)
                    &&& final(self)@.diagnostics == old(self)@.diagnostics + command_warnings(
                        reply@,
                        text,
                    )
                },
                Err(error) => {
                    &&& result == Err::<String, NETCONFError>(error)
                    &&& final(self)@.diagnostics == old(self)@.diagnostics
                },
            },
    {
        let text = match self.phase {
            Phase::Awaiting(Operation::Command { text }) => text,
            _ => unreached(),
        };
        self.phase = Phase::Ready;
        match exchange {
            Ok(reply) => decode_command(reply, text, &mut self.warnings),
            Err(error) => Err(error),
        }
    }

    /// Asks for the lock on the configuration.
    pub fn lock_configuration(&mut self) -> (request: RPC)
        requires
            old(self)@.phase == Phase::Ready,
        ensures
            request@ == Request::LockConfiguration,
            final(self)@ == (Session { phase: Phase::Awaiting(Operation::Lock), ..old(self)@ }),
    {
        self.phase = Phase::Awaiting(Operation::Lock);
        RPC { rpc: RPCCommand::LockConfiguration {  } }
    }

    /// Takes the reply to a lock. Unless the engine was told to accept the
    /// success marker, every element in the reply fails the lock, the
    /// success marker too.
    pub fn lock_reply(&mut self, exchange: NETCONFResult<RPCReply>) -> (result: NETCONFResult<()>)
        requires
            old(self)@.phase == Phase::Awaiting(Operation::Lock),
        ensures
            final(self)@ == (Session { phase: Phase::Ready, ..old(self)@ }),
            match exchange {
                Ok(reply) => unit_outcome(result) == lock_outcome(
                    reply@,
                    old(self)@.lock_accepts_ok,
                ),
                Err(error) => result == Err::<(), NETCONFError>(error),
            },
    {
        self.phase = Phase::Ready;
        match exchange {
            Ok(reply) => decode_lock(reply, self.lock_accepts_ok),
            Err(error) => Err(error),
        }
    }

    /// Gives the lock on the configuration back.
    pub fn unlock_configuration(&mut self) -> (request: RPC)
        requires
            old(self)@.phase == Phase::Ready,
        ensures
            request@ == Request::UnlockConfiguration,
            final(self)@ == (Session { phase: Phase::Awaiting(Operation::Unlock), ..old(self)@ }),
    {
        self.phase = Phase::Awaiting(Operation::Unlock);
        RPC { rpc: RPCCommand::UnlockConfiguration {  } }
    }

    /// Takes the reply to an unlock: success markers or nothing at all.
    pub fn unlock_reply(&mut self, exchange: NETCONFResult<RPCReply>) -> (result: NETCONFResult<
        (),
    >)
        requires
            old(self)@.phase == Phase::Awaiting(Operation::Unlock),
        ensures
            final(self)@ == (Session { phase: Phase::Ready, ..old(self)@ }),
            match exchange {
                Ok(reply) => unit_outcome(result) == lock_outcome(reply@, true),
                Err(error) => result == Err::<(), NETCONFError>(error),
            },
    {
        self.phase = Phase::Ready;
        match exchange {
            Ok(reply) => decode_unlock(reply),
            Err(error) => Err(error),
        }
    }

    /// Asks the device to commit the loaded configuration: for good without
    /// a timeout, or with one to roll it back unless it is confirmed within
    /// that many seconds.
    pub fn apply_configuration(&mut self, confirm_timeout: Option<i32>) -> (request: RPC)
        requires
            old(self)@.phase == Phase::Ready,
        ensures
            request@ == match confirm_timeout {
                Some(seconds) => Request::CommitConfirmedConfiguration { timeout: seconds as int },
                None => Request::CommitConfiguration,
            },
            final(self)@ == (Session { phase: Phase::Awaiting(Operation::Apply), ..old(self)@ }),
    {
        self.phase = Phase::Awaiting(Operation::Apply);
        match confirm_timeout {
            Some(confirm_timeout) => RPC {
                rpc: RPCCommand::CommitConfirmedConfiguration {
                    confirm_timeout,
                    confirmed: ConfigurationConfirmed {  },
                },
            },
            None => RPC { rpc: RPCCommand::CommitConfiguration {  } },
        }
    }

    /// Takes the reply to a commit. Untyped text in it is passed over.
    pub fn apply_reply(&mut self, exchange: NETCONFResult<RPCReply>) -> (result: NETCONFResult<()>)
        requires
            old(self)@.phase == Phase::Awaiting(Operation::Apply),
        ensures
            final(self)@.phase == Phase::Ready,
            final(self)@.pending == old(self)@.pending,
            final(self)@.lock_accepts_ok == old(self)@.lock_accepts_ok,
            match exchange {
                Ok(reply) => {
                    &&& unit_outcome(result) == commit_outcome(reply@, true)
                    &&& final(self)@.diagnostics == old(self)@.diagnostics + commit_warnings(
                        reply@,
                        true,
                    )
                },
                Err(error) => {
                    &&& result == Err::<(), NETCONFError>(error)
                    &&& final(self)@.diagnostics == old(self)@.diagnostics
                },
            },
    {
        self.phase = Phase::Ready;
        match exchange {
            Ok(reply) => decode_commit(reply, true, &mut self.warnings),
            Err(error) => Err(error),
        }
    }

    /// Confirms a commit that was issued with a timeout.
    pub fn confirm_configuration(&mut self) -> (request: RPC)
        requires
            old(self)@.phase == Phase::Ready,
        ensures
            request@ == Request::CommitConfiguration,
            final(self)@ == (Session { phase: Phase::Awaiting(Operation::Confirm), ..old(self)@ }),
    {
        self.phase = Phase::Awaiting(Operation::Confirm);
        RPC { rpc: RPCCommand::CommitConfiguration {  } }
    }

    /// Takes the reply to a confirmation. Untyped text in it fails the
    /// operation.
    pub fn confirm_reply(&mut self, exchange: NETCONFResult<RPCReply>) -> (result: NETCONFResult<
        (),
    >)
        requires
            old(self)@.phase == Phase::Awaiting(Operation::Confirm),
        ensures
            final(self)@.phase == Phase::Ready,
            final(self)@.pending == old(self)@.pending,
            final(self)@.lock_accepts_ok == old(self)@.lock_accepts_ok,
            match exchange {
                Ok(reply) => {
                    &&& unit_outcome(result) == commit_outcome(reply@, false)
                    &&& final(self)@.diagnostics == old(self)@.diagnostics + commit_warnings(
                        reply@,
                        false,
                    )
                },
                Err(error) => {
                    &&& result == Err::<(), NETCONFError>(error)
                    &&& final(self)@.diagnostics == old(self)@.diagnostics
                },
            },
    {
        self.phase = Phase::Ready;
        match exchange {
            Ok(reply) => decode_commit(reply, false, &mut self.warnings),
            Err(error) => Err(error),
        }
    }

    /// Loads a configuration in text form, to update the one on the device.
    pub fn load_configuration(&mut self, cfg: String) -> (request: RPC)
        requires
            old(self)@.phase == Phase::Ready,
        ensures
            request@ == (Request::LoadConfiguration {
                format: "text"@,
                action: "update"@,
                text: cfg@,
            }),
            final(self)@ == (Session { phase: Phase::Awaiting(Operation::Load), ..old(self)@ }),
    {
        self.phase = Phase::Awaiting(Operation::Load);
        RPC {
            rpc: RPCCommand::LoadConfiguration {
                format: "text".to_string(),
                action: "update".to_string(),
                cfg,
            },
        }
    }

    /// Takes the reply to a load.
    pub fn load_reply(&mut self, exchange: NETCONFResult<RPCReply>) -> (result: NETCONFResult<()>)
        requires
            old(self)@.phase == Phase::Awaiting(Operation::Load),
        ensures
            final(self)@.phase == Phase::Ready,
            final(self)@.pending == old(self)@.pending,
            final(self)@.lock_accepts_ok == old(self)@.lock_accepts_ok,
            match exchange {
                Ok(reply) => {
                    &&& unit_outcome(result) == load_outcome(reply@)
                    &&& final(self)@.diagnostics == old(self)@.diagnostics + load_warnings(reply@)
                },
                Err(error) => {
                    &&& result == Err::<(), NETCONFError>(error)
                    &&& final(self)@.diagnostics == old(self)@.diagnostics
                },
            },
    {
        self.phase = Phase::Ready;
        match exchange {
            Ok(reply) => decode_load(reply, &mut self.warnings),
            Err(error) => Err(error),
        }
    }

    /// Asks for the difference between the loaded configuration and the
    /// active one. Whatever the format, the request compares with rollback 0.
    pub fn diff_configuration(&mut self, format: String) -> (request: RPC)
        requires
            old(self)@.phase == Phase::Ready,
        ensures
            request@ == (Request::GetConfiguration {
                format: format@,
                rollback: Some("0"@),
                compare: Some("rollback"@),
            }),
            final(self)@ == (Session { phase: Phase::Awaiting(Operation::Diff), ..old(self)@ }),
    {
        self.phase = Phase::Awaiting(Operation::Diff);
        RPC {
            rpc: RPCCommand::GetConfiguration {
                format,
                rollback: Some("0".to_string()),
                compare: Some("rollback".to_string()),
            },
        }
    }

    /// Takes the reply to a diff and returns the text of its configuration
    /// information.
    pub fn diff_reply(&mut self, exchange: NETCONFResult<RPCReply>) -> (result: NETCONFResult<
        String,
    >)
        requires
            old(self)@.phase == Phase::Awaiting(Operation::Diff),
        ensures
            final(self)@ == (Session { phase: Phase::Ready, ..old(self)@ }),
            match exchange {
                Ok(reply) => text_outcome(result) == diff_outcome(reply@),
                Err(error) => result == Err::<String, NETCONFError>(error),
            },
    {
        self.phase = Phase::Ready;
        match exchange {
            Ok(reply) => decode_diff(reply),
            Err(error) => Err(error),
        }
    }
}

} // verus!
