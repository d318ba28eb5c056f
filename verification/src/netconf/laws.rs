//! What holds of every reply: warnings never fail an operation, other
//! device errors always do, and what the replies to an unlock, a lock and a
//! diff must look like.

use crate::netconf::error::Failure;
use crate::netconf::index::{
    after_removal, before_removal, is_first_hit, lemma_first_index, lemma_first_index_found,
    lemma_first_index_is_first, lemma_first_index_without, lemma_no_index,
};
use crate::netconf::reply::{
    command_outcome, command_rejects, command_stop, command_warnings, commit_accepts,
    commit_outcome, commit_rejects, commit_stop, commit_warnings, diff_outcome, diff_rejects,
    entries_outcome, entries_warnings, entry_elements, first_result, is_result,
    is_warning_element, load_entries, load_outcome, load_rejects, load_stop, load_warnings,
    lock_outcome, lock_rejects, lock_stop, refusal, results_of, scanned, text_of, warning_text,
    warnings_in,
};
use crate::netconf::xml::{LoadResult, ReplyElement, Text};
use vstd::prelude::*;

verus! {

/// The log holds the line of every warning among the elements read.
pub proof fn lemma_warnings_in_holds(read: Seq<ReplyElement>, at: int)
    requires
        0 <= at < read.len(),
        is_warning_element(read[at]),
    ensures
        warnings_in(read).contains(warning_text(read[at]->DeviceError_0)),
    decreases read.len(),
{
    let earlier = warnings_in(read.drop_last());
    if at == read.len() - 1 {
        let full = earlier.push(warning_text(read[at]->DeviceError_0));
        assert(warnings_in(read) == full);
        assert(full[full.len() - 1] == warning_text(read[at]->DeviceError_0));
    } else {
        lemma_warnings_in_holds(read.drop_last(), at);
        let line = warning_text(read[at]->DeviceError_0);
        let found = choose|i: int| 0 <= i < earlier.len() && earlier[i] == line;
        assert(warnings_in(read)[found] == line);
    }
}

/// A commit ends as if a warning in its reply were not there.
pub proof fn lemma_commit_passes_warning(reply: Seq<ReplyElement>, tolerant: bool, at: int)
    requires
        0 <= at < reply.len(),
        is_warning_element(reply[at]),
    ensures
        commit_outcome(reply.remove(at), tolerant) == commit_outcome(reply, tolerant),
{
    let short = reply.remove(at);
    let hit = commit_rejects(reply, tolerant);
    let less = commit_rejects(short, tolerant);
    assert forall|i: int| 0 <= i < reply.len() - 1 implies #[trigger] less(i) == hit(
        before_removal(at, i),
    ) by {
        assert(short[i] == reply[before_removal(at, i)]);
    }
    lemma_first_index_without(reply.len() as int, hit, less, at);
    lemma_first_index_is_first(reply.len() as int, hit);
    match commit_stop(reply, tolerant) {
        Some(stop) => {
            assert(short[after_removal(at, stop)] == reply[stop]);
        },
        None => {
            if reply.contains(ReplyElement::Okay) {
                let i = choose|i: int| 0 <= i < reply.len() && reply[i] == ReplyElement::Okay;
                assert(short[after_removal(at, i)] == ReplyElement::Okay);
            }
            if short.contains(ReplyElement::Okay) {
                let i = choose|i: int| 0 <= i < short.len() && short[i] == ReplyElement::Okay;
                assert(reply[before_removal(at, i)] == ReplyElement::Okay);
            }
        },
    }
}

/// A commit logs every warning that stands before the element at which it
/// fails, and every warning where it fails at none.
pub proof fn lemma_commit_logs_warning(reply: Seq<ReplyElement>, tolerant: bool, at: int)
    requires
        0 <= at < reply.len(),
        is_warning_element(reply[at]),
        commit_stop(reply, tolerant) matches Some(stop) ==> at < stop,
    ensures
        commit_warnings(reply, tolerant).contains(warning_text(reply[at]->DeviceError_0)),
{
    let read = scanned(reply, commit_stop(reply, tolerant));
    lemma_first_index_is_first(reply.len() as int, commit_rejects(reply, tolerant));
    assert(read[at] == reply[at]);
    lemma_warnings_in_holds(read, at);
}

/// A commit fails if its reply holds a device error that is no warning,
/// wherever it stands.
pub proof fn lemma_commit_fails_on_error(reply: Seq<ReplyElement>, tolerant: bool, at: int)
    requires
        0 <= at < reply.len(),
        reply[at] is DeviceError,
        !is_warning_element(reply[at]),
    ensures
        commit_outcome(reply, tolerant) is Err,
{
    lemma_first_index_found(reply.len() as int, commit_rejects(reply, tolerant), at);
}

/// A commit succeeds on a reply of elements that it accepts, one of them a
/// success marker, and logs every warning in it.
pub proof fn lemma_commit_succeeds(reply: Seq<ReplyElement>, tolerant: bool, at: int)
    requires
        forall|i: int| 0 <= i < reply.len() ==> commit_accepts(reply[i], tolerant),
        0 <= at < reply.len(),
        reply[at] is Okay,
    ensures
        commit_outcome(reply, tolerant) == Ok::<(), Failure>(()),
        commit_warnings(reply, tolerant) == warnings_in(reply),
{
    let hit = commit_rejects(reply, tolerant);
    assert forall|i: int| 0 <= i < reply.len() implies !#[trigger] hit(i) by {
        assert(commit_accepts(reply[i], tolerant));
    }
    lemma_no_index(reply.len() as int, hit);
    assert(reply[at] == ReplyElement::Okay);
}

/// A commit misses its result on a reply of elements that it accepts, none
/// of them a success marker: the empty reply, or warnings and nothing else.
pub proof fn lemma_commit_misses_result(reply: Seq<ReplyElement>, tolerant: bool)
    requires
        forall|i: int| 0 <= i < reply.len() ==> commit_accepts(reply[i], tolerant),
        forall|i: int| 0 <= i < reply.len() ==> !(reply[i] is Okay),
    ensures
        commit_outcome(reply, tolerant) == Err::<(), Failure>(Failure::MissingResult),
        commit_warnings(reply, tolerant) == warnings_in(reply),
{
    let hit = commit_rejects(reply, tolerant);
    assert forall|i: int| 0 <= i < reply.len() implies !#[trigger] hit(i) by {
        assert(commit_accepts(reply[i], tolerant));
    }
    lemma_no_index(reply.len() as int, hit);
}

/// A commit fails at the first element that it does not accept, with the
/// failure of that element, and logs the warnings before it.
pub proof fn lemma_commit_fails_at(reply: Seq<ReplyElement>, tolerant: bool, at: int)
    requires
        0 <= at < reply.len(),
        !commit_accepts(reply[at], tolerant),
        forall|i: int| 0 <= i < at ==> commit_accepts(reply[i], tolerant),
    ensures
        commit_outcome(reply, tolerant) == Err::<(), Failure>(refusal(reply[at])),
        commit_warnings(reply, tolerant) == warnings_in(reply.take(at)),
{
    let hit = commit_rejects(reply, tolerant);
    assert forall|i: int| 0 <= i < at implies !#[trigger] hit(i) by {
        assert(commit_accepts(reply[i], tolerant));
    }
    lemma_first_index(reply.len() as int, hit, at);
}

/// A load whose reply holds load results and nothing else ends as the
/// entries of the last of them end, and logs what they log.
pub proof fn lemma_load_reads_entries(reply: Seq<ReplyElement>)
    requires
        reply.len() > 0,
        forall|i: int| 0 <= i < reply.len() ==> reply[i] is LoadConfigurationResults,
    ensures
        load_outcome(reply) == entries_outcome(load_entries(reply)),
        load_warnings(reply) == entries_warnings(load_entries(reply)),
{
    lemma_no_index(reply.len() as int, load_rejects(reply));
}

/// A command ends as if a warning in its reply were not there.
pub proof fn lemma_command_passes_warning(reply: Seq<ReplyElement>, text: bool, at: int)
    requires
        0 <= at < reply.len(),
        is_warning_element(reply[at]),
    ensures
        command_outcome(reply.remove(at), text) == command_outcome(reply, text),
{
    let short = reply.remove(at);
    let len = reply.len() as int;
    let results = results_of(reply, text);
    let fewer = results_of(short, text);
    assert forall|i: int| 0 <= i < len - 1 implies #[trigger] fewer(i) == results(
        before_removal(at, i),
    ) by {
        assert(short[i] == reply[before_removal(at, i)]);
    }
    lemma_first_index_without(len, results, fewer, at);
    lemma_first_index_is_first(len, results);
    let hit = command_rejects(reply, text);
    let less = command_rejects(short, text);
    assert forall|i: int| 0 <= i < len - 1 implies #[trigger] less(i) == hit(
        before_removal(at, i),
    ) by {
        assert(short[i] == reply[before_removal(at, i)]);
    }
    lemma_first_index_without(len, hit, less, at);
    lemma_first_index_is_first(len, hit);
    match command_stop(reply, text) {
        Some(stop) => {
            assert(short[after_removal(at, stop)] == reply[stop]);
        },
        None => {
            if let Some(found) = first_result(reply, text) {
                assert(short[after_removal(at, found)] == reply[found]);
            }
        },
    }
}

/// A command logs every warning that stands before the element at which it
/// fails, and every warning where it fails at none.
pub proof fn lemma_command_logs_warning(reply: Seq<ReplyElement>, text: bool, at: int)
    requires
        0 <= at < reply.len(),
        is_warning_element(reply[at]),
        command_stop(reply, text) matches Some(stop) ==> at < stop,
    ensures
        command_warnings(reply, text).contains(warning_text(reply[at]->DeviceError_0)),
{
    let read = scanned(reply, command_stop(reply, text));
    lemma_first_index_is_first(reply.len() as int, command_rejects(reply, text));
    assert(read[at] == reply[at]);
    lemma_warnings_in_holds(read, at);
}

/// A command fails if its reply holds a device error that is no warning,
/// wherever it stands.
pub proof fn lemma_command_fails_on_error(reply: Seq<ReplyElement>, text: bool, at: int)
    requires
        0 <= at < reply.len(),
        reply[at] is DeviceError,
        !is_warning_element(reply[at]),
    ensures
        command_outcome(reply, text) is Err,
{
    lemma_first_index_is_first(reply.len() as int, results_of(reply, text));
    lemma_first_index_found(reply.len() as int, command_rejects(reply, text), at);
}

/// A command whose reply holds one element that can be its result, and
/// warnings besides, returns the text of that element.
pub proof fn lemma_command_returns_result(reply: Seq<ReplyElement>, text: bool, at: int)
    requires
        0 <= at < reply.len(),
        is_result(reply[at], text),
        forall|other: int|
            0 <= other < reply.len() && other != at ==> is_warning_element(reply[other]),
    ensures
        command_outcome(reply, text) == Ok::<Text, Failure>(text_of(reply[at])),
{
    let len = reply.len() as int;
    let results = results_of(reply, text);
    assert forall|earlier: int| 0 <= earlier < at implies !#[trigger] results(earlier) by {
        assert(is_warning_element(reply[earlier]));
    }
    lemma_first_index(len, results, at);
    let hit = command_rejects(reply, text);
    assert forall|i: int| 0 <= i < len implies !#[trigger] hit(i) by {
        if i != at {
            assert(is_warning_element(reply[i]));
        }
    }
    lemma_no_index(len, hit);
}

/// Whether an entry of load results is a device error of severity `warning`.
pub open spec fn is_warning_entry(entry: LoadResult) -> bool {
    entry matches LoadResult::DeviceError(error) && error.is_warning()
}

/// The entries of load results end as if a warning among them were not
/// there.
pub proof fn lemma_entries_pass_warning(entries: Seq<LoadResult>, at: int)
    requires
        0 <= at < entries.len(),
        is_warning_entry(entries[at]),
    ensures
        entries_outcome(entries.remove(at)) == entries_outcome(entries),
{
    assert(entry_elements(entries.remove(at)) =~= entry_elements(entries).remove(at));
    lemma_commit_passes_warning(entry_elements(entries), false, at);
}

/// A load ends as if a warning among the entries that it reads were not
/// there.
pub proof fn lemma_load_passes_warning(reply: Seq<ReplyElement>, at: int)
    requires
        reply.len() > 0,
        reply.last() is LoadConfigurationResults,
        0 <= at < load_entries(reply).len(),
        is_warning_entry(load_entries(reply)[at]),
    ensures
        load_outcome(
            reply.update(
                reply.len() - 1,
                ReplyElement::LoadConfigurationResults { results: load_entries(reply).remove(at) },
            ),
        ) == load_outcome(reply),
{
    let entries = load_entries(reply);
    let short = reply.update(
        reply.len() - 1,
        ReplyElement::LoadConfigurationResults { results: entries.remove(at) },
    );
    let len = reply.len() as int;
    let hit = load_rejects(reply);
    let same = load_rejects(short);
    lemma_first_index_is_first(len, hit);
    assert forall|i: int| 0 <= i < len implies #[trigger] same(i) == hit(i) by {
        if i < len - 1 {
            assert(short[i] == reply[i]);
        }
    }
    match load_stop(reply) {
        Some(stop) => {
            assert(is_first_hit(len, same, stop));
            lemma_first_index(len, same, stop);
        },
        None => {
            lemma_no_index(len, same);
            lemma_entries_pass_warning(entries, at);
        },
    }
}

/// A load logs every warning among the entries that it reads, up to the
/// entry at which it fails.
pub proof fn lemma_load_logs_warning(reply: Seq<ReplyElement>, at: int)
    requires
        reply.len() > 0,
        load_stop(reply) is None,
        0 <= at < load_entries(reply).len(),
        is_warning_entry(load_entries(reply)[at]),
        commit_stop(entry_elements(load_entries(reply)), false) matches Some(stop) ==> at < stop,
    ensures
        load_warnings(reply).contains(warning_text(load_entries(reply)[at]->DeviceError_0)),
{
    let read = entry_elements(load_entries(reply));
    lemma_commit_logs_warning(read, false, at);
}

/// A load fails if the entries that it reads hold a device error that is no
/// warning, wherever it stands.
pub proof fn lemma_load_fails_on_error(reply: Seq<ReplyElement>, at: int)
    requires
        0 <= at < load_entries(reply).len(),
        load_entries(reply)[at] is DeviceError,
        !is_warning_entry(load_entries(reply)[at]),
    ensures
        load_outcome(reply) is Err,
{
    lemma_commit_fails_on_error(entry_elements(load_entries(reply)), false, at);
}

/// An unlock succeeds exactly on a reply of success markers, the empty reply
/// among them.
pub proof fn lemma_unlock_succeeds(reply: Seq<ReplyElement>)
    ensures
        lock_outcome(reply, true) is Ok <==> forall|at: int|
            0 <= at < reply.len() ==> reply[at] is Okay,
{
    let hit = lock_rejects(reply, true);
    lemma_first_index_is_first(reply.len() as int, hit);
    if forall|at: int| 0 <= at < reply.len() ==> reply[at] is Okay {
        lemma_no_index(reply.len() as int, hit);
    }
    if lock_stop(reply, true) is None {
        assert forall|at: int| 0 <= at < reply.len() implies reply[at] is Okay by {
            assert(!hit(at));
        }
    }
}

/// A lock that accepts no success marker succeeds on the empty reply alone.
pub proof fn lemma_strict_lock_succeeds(reply: Seq<ReplyElement>)
    ensures
        lock_outcome(reply, false) is Ok <==> reply.len() == 0,
{
    let hit = lock_rejects(reply, false);
    if reply.len() == 0 {
        lemma_no_index(0, hit);
    } else {
        assert(hit(0));
        lemma_first_index_found(reply.len() as int, hit, 0);
    }
}

/// A diff whose reply is configuration information and nothing else returns
/// the text of that element; of several, the text of the last.
pub proof fn lemma_diff_returns_text(reply: Seq<ReplyElement>)
    requires
        reply.len() > 0,
        forall|at: int| 0 <= at < reply.len() ==> reply[at] is ConfigurationInformation,
    ensures
        diff_outcome(reply) == Ok::<Text, Failure>(text_of(reply.last())),
{
    lemma_no_index(reply.len() as int, diff_rejects(reply));
}

} // verus!
