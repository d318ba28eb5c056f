//! The messages of a reply as text for people to read.

use crate::netconf::xml::{
    DeviceError, LoadConfigurationResultsEnum, LoadResult, RPCError, RPCReply, RPCReplyCommand,
    ReplyElement, Text,
};
use vstd::prelude::*;
use vstd::string::*;

verus! {

/// What `format!("{:?}", ..)` writes for a string slice that holds `text`:
/// the text between double quotes, with the characters escaped that the
/// `Debug` form of `str` escapes.
pub uninterp spec fn debug_quoted(text: Seq<char>) -> Seq<char>;

/// Writes a string in its `Debug` form, with `format!("{:?}", ..)`.
///
/// Not proved: the result is a function of the text alone. What it holds is
/// left to the standard library.
#[verifier::external_body]
fn debug_form(text: &str) -> (quoted: String)
    ensures
        quoted@ == debug_quoted(text@),
{
    format!("{:?}", text)
}

/// The `Debug` form of an optional text: `None`, or the text quoted inside
/// `Some(..)`.
pub open spec fn debug_optional(value: Option<Text>) -> Text {
    match value {
        Some(text) => "Some("@ + debug_quoted(text) + ")"@,
        None => "None"@,
    }
}

/// The `Debug` form of what a device error says of the element at fault:
/// `None` without an info element, else that of the bad element inside
/// `Some(..)`.
pub open spec fn debug_info(info: Option<Option<Text>>) -> Text {
    match info {
        Some(bad_element) => "Some("@ + debug_optional(bad_element) + ")"@,
        None => "None"@,
    }
}

impl DeviceError {
    /// A device error in two lines: the severity, the path and the element
    /// at fault; then the message.
    pub open spec fn rendered(self) -> Text {
        self.severity + " at "@ + debug_optional(self.path) + " "@ + debug_info(self.info) + "\n"@
            + self.message + "\n"@
    }
}

impl LoadResult {
    /// One entry of load results in a line of its own.
    pub open spec fn rendered(self) -> Text {
        match self {
            LoadResult::Okay => "Success!"@ + "\n"@,
            LoadResult::DeviceError(error) => error.rendered() + "\n"@,
        }
    }
}

/// The entries of load results, one after the other.
pub open spec fn rendered_entries(entries: Seq<LoadResult>) -> Text
    decreases entries.len(),
{
    if entries.len() == 0 {
        Seq::empty()
    } else {
        rendered_entries(entries.drop_last()) + entries.last().rendered()
    }
}

impl ReplyElement {
    /// One element of a reply as text.
    pub open spec fn rendered(self) -> Text {
        match self {
            ReplyElement::Output { text } => text,
            ReplyElement::Other { text } => text,
            ReplyElement::ConfigurationInformation { text } => text,
            ReplyElement::Okay => "Executed Successfully!"@,
            ReplyElement::DeviceError(error) => error.rendered(),
            ReplyElement::LoadConfigurationResults { results } => rendered_entries(results),
        }
    }
}

/// The elements of a reply, each followed by a line feed.
pub open spec fn rendered_reply(reply: Seq<ReplyElement>) -> Text
    decreases reply.len(),
{
    if reply.len() == 0 {
        Seq::empty()
    } else {
        rendered_reply(reply.drop_last()) + reply.last().rendered() + "\n"@
    }
}

/// Appends the `Debug` form of an optional string.
fn push_debug_optional(out: &mut String, value: &Option<String>)
    ensures
        final(out)@ == old(out)@ + debug_optional(
            match *value {
                Some(text) => Some(text@),
                None => None,
            },
        ),
{
    match value {
        Some(text) => {
            let quoted = debug_form(text.as_str());
            out.append("Some(");
            out.append(quoted.as_str());
            out.append(")");
            assert(out@ =~= old(out)@ + ("Some("@ + debug_quoted(text@) + ")"@));
        },
        None => {
            out.append("None");
        },
    }
}

impl RPCError {
    /// The device error as text.
    pub fn to_string(&self) -> (text: String)
        ensures
            text@ == self@.rendered(),
    {
        let mut text = String::new();
        text.append(self.error_severity.as_str());
        text.append(" at ");
        push_debug_optional(&mut text, &self.error_path);
        text.append(" ");
        match &self.error_info {
            Some(info) => {
                let ghost before = text@;
                text.append("Some(");
                push_debug_optional(&mut text, &info.bad_element);
                text.append(")");
                assert(text@ =~= before + debug_info(self@.info));
            },
            None => {
                text.append("None");
            },
        }
        text.append("\n");
        text.append(self.error_message.as_str());
        text.append("\n");
        assert(text@ =~= self@.rendered());
        text
    }
}

impl LoadConfigurationResultsEnum {
    /// The entry as text, in a line of its own.
    pub fn to_string(&self) -> (text: String)
        ensures
            text@ == self@.rendered(),
    {
        match self {
            LoadConfigurationResultsEnum::Okay => {
                let mut text = "Success!".to_string();
                text.append("\n");
                text
            },
            LoadConfigurationResultsEnum::RPCError(error) => {
                let mut text = error.to_string();
                text.append("\n");
                text
            },
        }
    }
}

impl RPCReplyCommand {
    /// The element as text.
    pub fn to_string(&self) -> (text: String)
        ensures
            text@ == self@.rendered(),
    {
        match self {
            RPCReplyCommand::Output { text } => text.clone(),
            RPCReplyCommand::Other(text) => text.clone(),
            RPCReplyCommand::ConfigurationInformation { configuration_output } => {
                configuration_output.clone()
            },
            RPCReplyCommand::Okay => "Executed Successfully!".to_string(),
            RPCReplyCommand::RPCError(error) => error.to_string(),
            RPCReplyCommand::LoadConfigurationResults(results) => {
                let entries = &results.load_configuration_results;
                let ghost all = results@;
                let mut text = String::new();
                let mut at: usize = 0;
                assert(all.take(0) =~= Seq::<LoadResult>::empty());
                while at < entries.len()
                    invariant
                        at <= entries@.len(),
                        all == results@,
                        entries@ == results.load_configuration_results@,
                        text@ == rendered_entries(all.take(at as int)),
                    decreases entries@.len() - at,
                {
                    let line = entries[at].to_string();
                    text.append(line.as_str());
                    assert(all.take(at + 1).drop_last() =~= all.take(at as int));
                    at += 1;
                }
                assert(all.take(at as int) =~= all);
                text
            },
        }
    }
}

impl RPCReply {
    /// The reply as text: its elements, each followed by a line feed.
    pub fn to_string(&self) -> (text: String)
        ensures
            text@ == rendered_reply(self@),
    {
        let ghost all = self@;
        let mut text = String::new();
        let mut at: usize = 0;
        assert(all.take(0) =~= Seq::<ReplyElement>::empty());
        while at < self.rpc_reply.len()
            invariant
                at <= self.rpc_reply@.len(),
                all == self@,
                text@ == rendered_reply(all.take(at as int)),
            decreases self.rpc_reply@.len() - at,
        {
            let element = self.rpc_reply[at].to_string();
            text.append(element.as_str());
            text.append("\n");
            assert(all.take(at + 1).drop_last() =~= all.take(at as int));
            at += 1;
        }
        assert(all.take(at as int) =~= all);
        text
    }
}

} // verus!
