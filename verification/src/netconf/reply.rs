//! What each operation makes of the reply to its request.
//!
//! A reply is a sequence of elements, read in the order of arrival. Every
//! operation accepts some elements and fails at the first one that it does
//! not accept. Warnings are written to a log and never fail an operation.

use crate::netconf::error::{text_outcome, unit_outcome, Failure, NETCONFError, NETCONFResult};
use crate::netconf::index::{first_index, is_first_hit, lemma_first_index, lemma_no_index};
use crate::netconf::text::same_text;
use crate::netconf::xml::{
    elements, texts, DeviceError, LoadConfigurationResults, LoadConfigurationResultsEnum,
    LoadResult, RPCError, RPCReply, RPCReplyCommand, ReplyElement, Text,
};
use vstd::prelude::*;
use vstd::string::*;

verus! {

/// The part of a reply that an operation reads: all of it, or what comes
/// before the element at which it fails.
pub open spec fn scanned<T>(reply: Seq<T>, stop: Option<int>) -> Seq<T> {
    match stop {
        Some(at) => reply.take(at),
        None => reply,
    }
}

/// Whether an element is a device error of severity `warning`.
pub open spec fn is_warning_element(element: ReplyElement) -> bool {
    element matches ReplyElement::DeviceError(error) && error.is_warning()
}

/// The line that is logged for a warning: `Warning: `, the path and a space
/// if there is a path, and the message.
pub open spec fn warning_text(error: DeviceError) -> Text {
    let place = match error.path {
        Some(path) => path + " "@,
        None => Seq::empty(),
    };
    "Warning: "@ + place + error.message
}

/// The lines logged for the warnings among `elements`, in order.
pub open spec fn warnings_in(elements: Seq<ReplyElement>) -> Seq<Text>
    decreases elements.len(),
{
    if elements.len() == 0 {
        Seq::empty()
    } else {
        let earlier = warnings_in(elements.drop_last());
        match elements.last() {
            ReplyElement::DeviceError(error) => if error.is_warning() {
                earlier.push(warning_text(error))
            } else {
                earlier
            },
            _ => earlier,
        }
    }
}

/// How an element that is not accepted fails an operation that classifies
/// device errors: a device error fails it as itself, any other element as an
/// unexpected reply.
pub open spec fn refusal(element: ReplyElement) -> Failure {
    match element {
        ReplyElement::DeviceError(error) => Failure::Device(error),
        _ => Failure::UnexpectedReply(element),
    }
}

/// What a commit accepts: the success marker, warnings, and untyped text
/// where the operation tolerates it.
pub open spec fn commit_accepts(element: ReplyElement, tolerant: bool) -> bool {
    ||| element is Okay
    ||| is_warning_element(element)
    ||| (tolerant && element is Other)
}

/// Whether a commit fails at the element at a given index.
pub open spec fn commit_rejects(reply: Seq<ReplyElement>, tolerant: bool) -> spec_fn(int) -> bool {
    |at: int| !commit_accepts(reply[at], tolerant)
}

/// The index of the first element that a commit does not accept.
pub open spec fn commit_stop(reply: Seq<ReplyElement>, tolerant: bool) -> Option<int> {
    first_index(reply.len() as int, commit_rejects(reply, tolerant))
}

/// The result of a commit: the failure of the first element that is not
/// accepted; without one, success if the reply holds a success marker.
pub open spec fn commit_outcome(reply: Seq<ReplyElement>, tolerant: bool) -> Result<(), Failure> {
    match commit_stop(reply, tolerant) {
        Some(at) => Err(refusal(reply[at])),
        None => if reply.contains(ReplyElement::Okay) {
            Ok(())
        } else {
            Err(Failure::MissingResult)
        },
    }
}

/// The lines that a commit logs: one for each warning that it reads.
pub open spec fn commit_warnings(reply: Seq<ReplyElement>, tolerant: bool) -> Seq<Text> {
    warnings_in(scanned(reply, commit_stop(reply, tolerant)))
}

/// Whether an element can be the result of a command: an output element
/// for the text format, untyped text for any other format.
pub open spec fn is_result(element: ReplyElement, text: bool) -> bool {
    if text {
        element is Output
    } else {
        element is Other
    }
}

/// The text that an element carries; empty for an element without text.
pub open spec fn text_of(element: ReplyElement) -> Text {
    match element {
        ReplyElement::Output { text } => text,
        ReplyElement::ConfigurationInformation { text } => text,
        ReplyElement::Other { text } => text,
        _ => Seq::empty(),
    }
}

/// Whether the element at a given index can be the result of a command.
pub open spec fn results_of(reply: Seq<ReplyElement>, text: bool) -> spec_fn(int) -> bool {
    |at: int| is_result(reply[at], text)
}

/// The index of the first element that can be the result of a command.
pub open spec fn first_result(reply: Seq<ReplyElement>, text: bool) -> Option<int> {
    first_index(reply.len() as int, results_of(reply, text))
}

/// What a command accepts: warnings, and the first element that can be its
/// result. A second such element is not accepted.
pub open spec fn command_accepts(reply: Seq<ReplyElement>, text: bool, at: int) -> bool {
    ||| is_warning_element(reply[at])
    ||| first_result(reply, text) == Some(at)
}

/// Whether a command fails at the element at a given index.
pub open spec fn command_rejects(reply: Seq<ReplyElement>, text: bool) -> spec_fn(int) -> bool {
    |at: int| !command_accepts(reply, text, at)
}

/// The index of the first element that a command does not accept.
pub open spec fn command_stop(reply: Seq<ReplyElement>, text: bool) -> Option<int> {
    first_index(reply.len() as int, command_rejects(reply, text))
}

/// The result of a command: the failure of the first element that is not
/// accepted; without one, the text of the result element, which must be there.
pub open spec fn command_outcome(reply: Seq<ReplyElement>, text: bool) -> Result<Text, Failure> {
    match command_stop(reply, text) {
        Some(at) => Err(refusal(reply[at])),
        None => match first_result(reply, text) {
            Some(at) => Ok(text_of(reply[at])),
            None => Err(Failure::MissingResult),
        },
    }
}

/// The lines that a command logs: one for each warning that it reads.
pub open spec fn command_warnings(reply: Seq<ReplyElement>, text: bool) -> Seq<Text> {
    warnings_in(scanned(reply, command_stop(reply, text)))
}

/// Whether a lock or unlock fails at the element at a given index. The
/// success marker is accepted under `accept_ok`, and nothing else ever.
pub open spec fn lock_rejects(reply: Seq<ReplyElement>, accept_ok: bool) -> spec_fn(int) -> bool {
    |at: int| !(accept_ok && reply[at] is Okay)
}

/// The index of the first element that a lock or unlock does not accept.
pub open spec fn lock_stop(reply: Seq<ReplyElement>, accept_ok: bool) -> Option<int> {
    first_index(reply.len() as int, lock_rejects(reply, accept_ok))
}

/// The result of a lock or unlock: an unexpected reply at the first element
/// that is not accepted, success without one.
pub open spec fn lock_outcome(reply: Seq<ReplyElement>, accept_ok: bool) -> Result<(), Failure> {
    match lock_stop(reply, accept_ok) {
        Some(at) => Err(Failure::UnexpectedReply(reply[at])),
        None => Ok(()),
    }
}

/// Whether a diff fails at the element at a given index: it accepts
/// configuration information and nothing else.
pub open spec fn diff_rejects(reply: Seq<ReplyElement>) -> spec_fn(int) -> bool {
    |at: int| !(reply[at] is ConfigurationInformation)
}

/// The index of the first element that a diff does not accept.
pub open spec fn diff_stop(reply: Seq<ReplyElement>) -> Option<int> {
    first_index(reply.len() as int, diff_rejects(reply))
}

/// The result of a diff: an unexpected reply at the first element that is
/// not accepted; without one, the text of the last element, which must be
/// there.
pub open spec fn diff_outcome(reply: Seq<ReplyElement>) -> Result<Text, Failure> {
    match diff_stop(reply) {
        Some(at) => Err(Failure::UnexpectedReply(reply[at])),
        None => if reply.len() == 0 {
            Err(Failure::MissingResult)
        } else {
            Ok(text_of(reply.last()))
        },
    }
}

/// An entry of load results as the reply element of the same meaning.
pub open spec fn entry_element(entry: LoadResult) -> ReplyElement {
    match entry {
        LoadResult::Okay => ReplyElement::Okay,
        LoadResult::DeviceError(error) => ReplyElement::DeviceError(error),
    }
}

/// The entries of load results as reply elements, in order.
pub open spec fn entry_elements(entries: Seq<LoadResult>) -> Seq<ReplyElement> {
    entries.map_values(|entry: LoadResult| entry_element(entry))
}

/// The result of the entries of load results. They are read as a commit that
/// tolerates nothing reads its reply: warnings are logged, another device
/// error fails the load, and a success marker must be there.
pub open spec fn entries_outcome(entries: Seq<LoadResult>) -> Result<(), Failure> {
    commit_outcome(entry_elements(entries), false)
}

/// The lines logged for the entries of load results.
pub open spec fn entries_warnings(entries: Seq<LoadResult>) -> Seq<Text> {
    commit_warnings(entry_elements(entries), false)
}

/// Whether a load fails at the element at a given index: it accepts load
/// results and nothing else.
pub open spec fn load_rejects(reply: Seq<ReplyElement>) -> spec_fn(int) -> bool {
    |at: int| !(reply[at] is LoadConfigurationResults)
}

/// The index of the first element that a load does not accept.
pub open spec fn load_stop(reply: Seq<ReplyElement>) -> Option<int> {
    first_index(reply.len() as int, load_rejects(reply))
}

/// The entries that a load reads: those of the last element of the reply.
pub open spec fn load_entries(reply: Seq<ReplyElement>) -> Seq<LoadResult> {
    match reply.last() {
        ReplyElement::LoadConfigurationResults { results } => results,
        _ => Seq::empty(),
    }
}

/// The result of a load: an unexpected reply at the first element that is
/// not accepted; without one, the result of the entries of the last element,
/// which must be there.
pub open spec fn load_outcome(reply: Seq<ReplyElement>) -> Result<(), Failure> {
    match load_stop(reply) {
        Some(at) => Err(Failure::UnexpectedReply(reply[at])),
        None => if reply.len() == 0 {
            Err(Failure::MissingResult)
        } else {
            entries_outcome(load_entries(reply))
        },
    }
}

/// The lines that a load logs: those for the entries that it reads, and none
/// where it fails before it reads any.
pub open spec fn load_warnings(reply: Seq<ReplyElement>) -> Seq<Text> {
    if load_stop(reply) is None && reply.len() > 0 {
        entries_warnings(load_entries(reply))
    } else {
        Seq::empty()
    }
}

/// Whether a device error is a warning.
pub fn is_warning(error: &RPCError) -> (warning: bool)
    ensures
        warning == error@.is_warning(),
{
    same_text(error.error_severity.as_str(), "warning")
}

/// The line that is logged for a warning.
pub fn warning_line(error: &RPCError) -> (line: String)
    ensures
        line@ == warning_text(error@),
{
    let mut line = "Warning: ".to_string();
    if let Some(path) = &error.error_path {
        line.append(path.as_str());
        line.append(" ");
    }
    line.append(error.error_message.as_str());
    proof {
        assert(line@ =~= warning_text(error@));
    }
    line
}

/// Writes the line for a warning to the log.
fn log_warning(error: &RPCError, log: &mut Vec<String>)
    ensures
        texts(final(log)@) == texts(old(log)@).push(warning_text(error@)),
{
    let line = warning_line(error);
    log.push(line);
    assert(texts(log@) =~= texts(old(log)@).push(warning_text(error@)));
}

/// Reads the reply to a commit. With `tolerant`, untyped text in the reply is
/// passed over; without, it fails the operation.
pub fn decode_commit(reply: RPCReply, tolerant: bool, log: &mut Vec<String>) -> (result:
    NETCONFResult<()>)
    ensures
        unit_outcome(result) == commit_outcome(reply@, tolerant),
        texts(final(log)@) == texts(old(log)@) + commit_warnings(reply@, tolerant),
{
    let ghost all = reply@;
    let ghost before = texts(log@);
    let ghost rejects = commit_rejects(all, tolerant);
    let mut done = false;
    assert(all.take(0) =~= Seq::<ReplyElement>::empty());
    for element in it: reply.rpc_reply
        invariant
            all == elements(it.seq()),
            all.len() == it.seq().len(),
            rejects == commit_rejects(all, tolerant),
            before == texts(old(log)@),
            forall|j: int| 0 <= j < it.index() ==> !#[trigger] rejects(j),
            done <==> exists|j: int| 0 <= j < it.index() && all[j] is Okay,
            texts(log@) == before + warnings_in(all.take(it.index() as int)),
    {
        let ghost at = it.index() as int;
        assert(all[at] == element@);
        assert(all.take(at + 1).drop_last() =~= all.take(at));
        match element {
            RPCReplyCommand::RPCError(error) => {
                if is_warning(&error) {
                    log_warning(&error, log);
                } else {
                    proof {
                        lemma_first_index(all.len() as int, rejects, at);
                    }
                    return Err(NETCONFError::DeviceError(error));
                }
            },
            RPCReplyCommand::Other(_) if tolerant => {},
            RPCReplyCommand::Okay => {
                done = true;
            },
            other => {
                proof {
                    lemma_first_index(all.len() as int, rejects, at);
                }
                return Err(NETCONFError::UnexpectedCommand(other));
            },
        }
    }
    proof {
        lemma_no_index(all.len() as int, rejects);
        assert(all.take(all.len() as int) =~= all);
    }
    if done {
        Ok(())
    } else {
        Err(NETCONFError::MissingOk)
    }
}

/// Reads the reply to a command. With `text`, the result is the output
/// element; without, it is the untyped text.
pub fn decode_command(reply: RPCReply, text: bool, log: &mut Vec<String>) -> (result:
    NETCONFResult<String>)
    ensures
        text_outcome(result) == command_outcome(reply@, text),
        texts(final(log)@) == texts(old(log)@) + command_warnings(reply@, text),
{
    let ghost all = reply@;
    let ghost before = texts(log@);
    let ghost results = results_of(all, text);
    let ghost rejects = command_rejects(all, text);
    let ghost mut found: int = -1;
    let mut output: Option<String> = None;
    assert(all.take(0) =~= Seq::<ReplyElement>::empty());
    for element in it: reply.rpc_reply
        invariant
            all == elements(it.seq()),
            all.len() == it.seq().len(),
            results == results_of(all, text),
            rejects == command_rejects(all, text),
            before == texts(old(log)@),
            forall|j: int| 0 <= j < it.index() ==> !#[trigger] rejects(j),
            output is Some <==> found >= 0,
            found < it.index(),
            found >= 0 ==> is_first_hit(all.len() as int, results, found) && output->0@ == text_of(
                all[found],
            ),
            found < 0 ==> forall|j: int| 0 <= j < it.index() ==> !#[trigger] results(j),
            texts(log@) == before + warnings_in(all.take(it.index() as int)),
    {
        let ghost at = it.index() as int;
        assert(all[at] == element@);
        assert(all.take(at + 1).drop_last() =~= all.take(at));
        proof {
            if found >= 0 {
                lemma_first_index(all.len() as int, results, found);
            }
        }
        match element {
            RPCReplyCommand::RPCError(error) => {
                if is_warning(&error) {
                    log_warning(&error, log);
                } else {
                    proof {
                        lemma_first_index(all.len() as int, rejects, at);
                    }
                    return Err(NETCONFError::DeviceError(error));
                }
            },
            RPCReplyCommand::Other(line) => {
                if output.is_none() && !text {
                    proof {
                        lemma_first_index(all.len() as int, results, at);
                        found = at;
                    }
                    output = Some(line);
                } else {
                    proof {
                        lemma_first_index(all.len() as int, rejects, at);
                    }
                    return Err(NETCONFError::UnexpectedCommand(RPCReplyCommand::Other(line)));
                }
            },
            RPCReplyCommand::Output { text: line } => {
                if output.is_none() && text {
                    proof {
                        lemma_first_index(all.len() as int, results, at);
                        found = at;
                    }
                    output = Some(line);
                } else {
                    proof {
                        lemma_first_index(all.len() as int, rejects, at);
                    }
                    return Err(
                        NETCONFError::UnexpectedCommand(RPCReplyCommand::Output { text: line }),
                    );
                }
            },
            other => {
                proof {
                    lemma_first_index(all.len() as int, rejects, at);
                }
                return Err(NETCONFError::UnexpectedCommand(other));
            },
        }
    }
    proof {
        lemma_no_index(all.len() as int, rejects);
        assert(all.take(all.len() as int) =~= all);
        if found >= 0 {
            lemma_first_index(all.len() as int, results, found);
        } else {
            lemma_no_index(all.len() as int, results);
        }
    }
    match output {
        Some(line) => Ok(line),
        None => Err(NETCONFError::MissingOk),
    }
}

/// Reads the reply to a lock or an unlock. Under `accept_ok` the success
/// marker is accepted; every other element fails the operation.
pub fn decode_lock(reply: RPCReply, accept_ok: bool) -> (result: NETCONFResult<()>)
    ensures
        unit_outcome(result) == lock_outcome(reply@, accept_ok),
{
    let ghost all = reply@;
    let ghost rejects = lock_rejects(all, accept_ok);
    for element in it: reply.rpc_reply
        invariant
            all == elements(it.seq()),
            all.len() == it.seq().len(),
            rejects == lock_rejects(all, accept_ok),
            forall|j: int| 0 <= j < it.index() ==> !#[trigger] rejects(j),
    {
        let ghost at = it.index() as int;
        assert(all[at] == element@);
        match element {
            RPCReplyCommand::Okay if accept_ok => {},
            other => {
                proof {
                    lemma_first_index(all.len() as int, rejects, at);
                }
                return Err(NETCONFError::UnexpectedCommand(other));
            },
        }
    }
    proof {
        lemma_no_index(all.len() as int, rejects);
    }
    Ok(())
}

/// Reads the reply to an unlock: the success marker or nothing at all.
pub fn decode_unlock(reply: RPCReply) -> (result: NETCONFResult<()>)
    ensures
        unit_outcome(result) == lock_outcome(reply@, true),
{
    decode_lock(reply, true)
}

/// Reads the reply to a diff: the text of the configuration information.
pub fn decode_diff(reply: RPCReply) -> (result: NETCONFResult<String>)
    ensures
        text_outcome(result) == diff_outcome(reply@),
{
    let ghost all = reply@;
    let ghost rejects = diff_rejects(all);
    let mut output: Option<String> = None;
    for element in it: reply.rpc_reply
        invariant
            all == elements(it.seq()),
            all.len() == it.seq().len(),
            rejects == diff_rejects(all),
            forall|j: int| 0 <= j < it.index() ==> !#[trigger] rejects(j),
            output is Some <==> it.index() > 0,
            it.index() > 0 ==> output->0@ == text_of(all[it.index() - 1]),
    {
        let ghost at = it.index() as int;
        assert(all[at] == element@);
        match element {
            RPCReplyCommand::ConfigurationInformation { configuration_output } => {
                output = Some(configuration_output);
            },
            other => {
                proof {
                    lemma_first_index(all.len() as int, rejects, at);
                }
                return Err(NETCONFError::UnexpectedCommand(other));
            },
        }
    }
    proof {
        lemma_no_index(all.len() as int, rejects);
    }
    match output {
        Some(text) => Ok(text),
        None => Err(NETCONFError::MissingOk),
    }
}

/// Reads the entries of load results.
pub fn decode_entries(entries: LoadConfigurationResults, log: &mut Vec<String>) -> (result:
    NETCONFResult<()>)
    ensures
        unit_outcome(result) == entries_outcome(entries@),
        texts(final(log)@) == texts(old(log)@) + entries_warnings(entries@),
{
    let ghost all = entry_elements(entries@);
    let ghost before = texts(log@);
    let ghost rejects = commit_rejects(all, false);
    let mut done = false;
    assert(all.take(0) =~= Seq::<ReplyElement>::empty());
    for entry in it: entries.load_configuration_results
        invariant
            all == entry_elements(it.seq().map_values(|e: LoadConfigurationResultsEnum| e@)),
            all.len() == it.seq().len(),
            rejects == commit_rejects(all, false),
            before == texts(old(log)@),
            forall|j: int| 0 <= j < it.index() ==> !#[trigger] rejects(j),
            done <==> exists|j: int| 0 <= j < it.index() && all[j] is Okay,
            texts(log@) == before + warnings_in(all.take(it.index() as int)),
    {
        let ghost at = it.index() as int;
        assert(all[at] == entry_element(entry@));
        assert(all.take(at + 1).drop_last() =~= all.take(at));
        match entry {
            LoadConfigurationResultsEnum::RPCError(error) => {
                if is_warning(&error) {
                    log_warning(&error, log);
                } else {
                    proof {
                        lemma_first_index(all.len() as int, rejects, at);
                    }
                    return Err(NETCONFError::DeviceError(error));
                }
            },
            LoadConfigurationResultsEnum::Okay => {
                done = true;
            },
        }
    }
    proof {
        lemma_no_index(all.len() as int, rejects);
        assert(all.take(all.len() as int) =~= all);
    }
    if done {
        Ok(())
    } else {
        Err(NETCONFError::MissingOk)
    }
}

/// Reads the reply to a load: the entries of its load results.
pub fn decode_load(reply: RPCReply, log: &mut Vec<String>) -> (result: NETCONFResult<()>)
    ensures
        unit_outcome(result) == load_outcome(reply@),
        texts(final(log)@) == texts(old(log)@) + load_warnings(reply@),
{
    let ghost all = reply@;
    let ghost rejects = load_rejects(all);
    let mut last: Option<LoadConfigurationResults> = None;
    for element in it: reply.rpc_reply
        invariant
            all == elements(it.seq()),
            all.len() == it.seq().len(),
            rejects == load_rejects(all),
            log@ == old(log)@,
            forall|j: int| 0 <= j < it.index() ==> !#[trigger] rejects(j),
            last is Some <==> it.index() > 0,
            it.index() > 0 ==> all[it.index() - 1] == (ReplyElement::LoadConfigurationResults {
                results: last->0@,
            }),
    {
        let ghost at = it.index() as int;
        assert(all[at] == element@);
        match element {
            RPCReplyCommand::LoadConfigurationResults(results) => {
                last = Some(results);
            },
            other => {
                proof {
                    lemma_first_index(all.len() as int, rejects, at);
                    assert(texts(log@) + Seq::<Text>::empty() =~= texts(log@));
                }
                return Err(NETCONFError::UnexpectedCommand(other));
            },
        }
    }
    proof {
        lemma_no_index(all.len() as int, rejects);
        assert(texts(log@) + Seq::<Text>::empty() =~= texts(log@));
    }
    match last {
        Some(results) => decode_entries(results, log),
        None => Err(NETCONFError::MissingOk),
    }
}

} // verus!
