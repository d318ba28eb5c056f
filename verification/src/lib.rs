//! A NETCONF session engine for configuration management over an
//! authenticated byte stream: run commands on a device, and load, compare,
//! commit, confirm and roll back a change of its configuration.
//!
//! The library holds the protocol: the framing of documents on the stream,
//! the typed requests and replies, the order of a session, and what each
//! operation makes of the reply to its request. It opens no connection and
//! reads no XML: its caller owns the channel and the XML codec, and hands
//! the engine bytes and typed messages.

pub mod netconf;
