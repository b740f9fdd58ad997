//! The two operations on single records: what a request makes of the
//! records it concerns, before anything is written back.

use vstd::prelude::*;
use crate::error::ContractError;
use crate::state::{ballot_view, fresh_options, labels_view, Ballot, Poll, PollView, MAX_OPTIONS};

verus! {

/// What an optional poll holds.
pub open spec fn poll_view(poll: Option<Poll>) -> Option<PollView> {
    match poll {
        Some(p) => Some(p@),
        None => None,
    }
}

/// What creating a poll yields: a poll with the given labels in their
/// order and no votes, unless there are more than ten labels or the
/// identifier is taken.
pub open spec fn poll_created(
    taken: bool,
    creator: Seq<char>,
    question: Seq<char>,
    labels: Seq<Seq<char>>,
) -> Result<PollView, ContractError> {
    if labels.len() > MAX_OPTIONS {
        Err(ContractError::TooManyOptions)
    } else if taken {
        Err(ContractError::PollAlreadyExists)
    } else {
        Ok(PollView { creator, question, options: fresh_options(labels) })
    }
}

/// What a vote for `label` yields, given the poll it names, if there is
/// one, and the voter's ballot so far, if there is one: the poll with the
/// vote counted, and the ballot that selects `label`.
pub open spec fn vote_cast(
    poll: Option<PollView>,
    previous: Option<Seq<char>>,
    label: Seq<char>,
) -> Result<(PollView, Seq<char>), ContractError> {
    match poll {
        None => Err(ContractError::PollNotFound),
        Some(p) => if !p.lists(label) {
            Err(ContractError::InvalidOption)
        } else {
            Ok((p.after_vote(previous, label), label))
        },
    }
}

/// Whether the vote is one that `cast_vote` can work on: where it is to be
/// counted, the tallies allow it.
pub open spec fn vote_countable(
    poll: Option<PollView>,
    previous: Option<Seq<char>>,
    label: Seq<char>,
) -> bool {
    match poll {
        Some(p) => p.lists(label) ==> p.can_count(previous, label),
        None => true,
    }
}

/// Whether `made` is what `expected` says: the poll that it holds, or the
/// failure that it names.
pub open spec fn yields_poll(
    made: Result<Poll, ContractError>,
    expected: Result<PollView, ContractError>,
) -> bool {
    match expected {
        Ok(poll) => made matches Ok(p) && p@ == poll,
        Err(e) => made matches Err(refusal) && refusal == e,
    }
}

/// Whether `cast` is what `expected` says: the poll and the ballot that it
/// holds, or the failure that it names.
pub open spec fn yields_records(
    cast: Result<(Poll, Ballot), ContractError>,
    expected: Result<(PollView, Seq<char>), ContractError>,
) -> bool {
    match expected {
        Ok((poll, ballot)) => cast matches Ok(kept) && kept.0@ == poll && kept.1@ == ballot,
        Err(e) => cast matches Err(refusal) && refusal == e,
    }
}

/// Makes a poll for `creator` with one option per label, each without
/// votes. `taken` says whether the poll's identifier is in use already.
pub fn create_poll(taken: bool, creator: String, question: String, options: Vec<String>) -> (made:
    Result<Poll, ContractError>)
    ensures
        yields_poll(made, poll_created(taken, creator@, question@, labels_view(options@))),
{
    if options.len() > MAX_OPTIONS {
        return Err(ContractError::TooManyOptions);
    }
    if taken {
        return Err(ContractError::PollAlreadyExists);
    }
    let mut opts: Vec<(String, u64)> = Vec::new();
    let mut i: usize = 0;
    while i < options.len()
        invariant
            i <= options.len(),
            opts.len() == i,
            forall|j: int| 0 <= j < i ==> opts@[j].0@ == options@[j]@ && opts@[j].1 == 0,
        decreases options.len() - i,
    {
        opts.push((options[i].clone(), 0));
        i += 1;
    }
    let poll = Poll { creator, question, options: opts };
    assert(poll@.options =~= fresh_options(labels_view(options@)));
    Ok(poll)
}

/// Whether `cast_vote` can work on these records.
pub fn is_countable(poll: &Option<Poll>, previous: &Option<Ballot>, option: &String) -> (yes: bool)
    ensures
        yes == vote_countable(poll_view(*poll), ballot_view(*previous), option@),
{
    match poll {
        None => true,
        Some(p) => p.position(option).is_none() || p.can_count(previous, option),
    }
}

/// Casts a vote for `option`, given the poll that the vote names, if it
/// exists, and the voter's ballot in that poll so far, if there is one.
/// Hands back the records to keep: the poll with the vote counted and the
/// voter's ballot.
pub fn cast_vote(poll: Option<Poll>, previous: Option<Ballot>, option: String) -> (cast: Result<
    (Poll, Ballot),
    ContractError,
>)
    requires
        vote_countable(poll_view(poll), ballot_view(previous), option@),
    ensures
        yields_records(cast, vote_cast(poll_view(poll), ballot_view(previous), option@)),
{
    match poll {
        None => Err(ContractError::PollNotFound),
        Some(mut p) => {
            if p.position(&option).is_none() {
                return Err(ContractError::InvalidOption);
            }
            p.count_vote(&previous, &option);
            Ok((p, Ballot { option }))
        },
    }
}

} // verus!
