//! What holds of the operations on every store.

use vstd::prelude::*;
use vstd::set_lib::*;
use crate::contract::outcome;
use crate::error::ContractError;
use crate::msg::ExecuteMsg;
use crate::state::{
    labels_view, lemma_position, lemma_vote_keeps_labels, same_labels, total_votes, PollView,
    MAX_OPTIONS,
};
use crate::store::{
    lemma_backers_finite, lemma_create_keeps_consistent, lemma_vote_keeps_consistent,
    lemma_voters_finite, StoreView,
};
use crate::voting::poll_created;

verus! {

/// Creating a poll with at most ten options under an identifier that is
/// free succeeds: the store then holds the poll under that identifier, its
/// options are the labels in the order given, each with no votes, and the
/// configuration, the other polls and the ballots are as before.
pub proof fn law_create_poll_succeeds(
    s: StoreView,
    poll_id: Seq<char>,
    creator: Seq<char>,
    question: Seq<char>,
    labels: Seq<Seq<char>>,
)
    requires
        labels.len() <= MAX_OPTIONS,
        !s.polls.contains_key(poll_id),
    ensures
        (s.create_poll(poll_id, creator, question, labels) matches Ok(t) && {
            &&& t.polls.contains_key(poll_id)
            &&& t.polls[poll_id].creator == creator
            &&& t.polls[poll_id].question == question
            &&& t.polls[poll_id].options.len() == labels.len()
            &&& forall|i: int|
                0 <= i < labels.len() ==> #[trigger] t.polls[poll_id].options[i] == (labels[i], 0nat)
            &&& t.polls.remove(poll_id) == s.polls
            &&& t.ballots == s.ballots
            &&& t.config == s.config
        }),
{
    let t = s.create_poll(poll_id, creator, question, labels)->Ok_0;
    assert(t.polls.remove(poll_id) =~= s.polls);
}

/// Creating a poll with more than ten options fails with `TooManyOptions`.
pub proof fn law_too_many_options(
    s: StoreView,
    poll_id: Seq<char>,
    creator: Seq<char>,
    question: Seq<char>,
    labels: Seq<Seq<char>>,
)
    requires
        labels.len() > MAX_OPTIONS,
    ensures
        s.create_poll(poll_id, creator, question, labels) == Err::<StoreView, ContractError>(
            ContractError::TooManyOptions,
        ),
{
}

/// A poll that is created from labels of which no two are the same has
/// options of which no two carry the same label.
pub proof fn law_new_poll_keeps_labels_distinct(
    taken: bool,
    creator: Seq<char>,
    question: Seq<char>,
    labels: Seq<Seq<char>>,
)
    requires
        labels.no_duplicates(),
    ensures
        poll_created(taken, creator, question, labels) matches Ok(poll) ==> poll.distinct_labels(),
{
}

/// In a poll of which no two options carry the same label, a vote counts
/// at the one option that carries its label, and the poll after the vote
/// is again such a poll.
pub proof fn law_votes_keep_labels_distinct(
    poll: PollView,
    previous: Option<Seq<char>>,
    label: Seq<char>,
)
    requires
        poll.distinct_labels(),
        poll.lists(label),
        previous matches Some(before) ==> poll.lists(before),
    ensures
        forall|i: int|
            0 <= i < poll.options.len() && (#[trigger] poll.options[i]).0 == label ==> i
                == poll.position(label),
        poll.after_vote(previous, label).distinct_labels(),
{
    lemma_position(poll, label);
    lemma_vote_keeps_labels(poll, previous, label);
    let after = poll.after_vote(previous, label);
    assert forall|i: int, j: int| 0 <= i < j < after.options.len() implies (
    #[trigger] after.options[i]).0 != (#[trigger] after.options[j]).0 by {
        assert(poll.options[i].0 == after.options[i].0);
        assert(poll.options[j].0 == after.options[j].0);
    }
}

spec fn counted_below(s: StoreView, poll_id: Seq<char>, n: int) -> Set<Seq<char>> {
    Set::new(
        |v: Seq<char>|
            s.ballots.contains_key((v, poll_id)) && s.polls[poll_id].position(
                s.ballots[(v, poll_id)],
            ) < n,
    )
}

proof fn lemma_counted_below(s: StoreView, poll_id: Seq<char>, n: int)
    requires
        s.consistent(),
        s.polls.contains_key(poll_id),
        0 <= n <= s.polls[poll_id].options.len(),
    ensures
        counted_below(s, poll_id, n).finite(),
        total_votes(s.polls[poll_id].options.take(n)) == counted_below(s, poll_id, n).len(),
    decreases n,
{
    let poll = s.polls[poll_id];
    assert forall|v: Seq<char>| s.ballots.contains_key((v, poll_id)) implies 0
        <= poll.position(#[trigger] s.ballots[(v, poll_id)]) < poll.options.len() by {
        lemma_position(poll, s.ballots[(v, poll_id)]);
    }
    if n == 0 {
        assert(counted_below(s, poll_id, 0) =~= Set::<Seq<char>>::empty());
        assert(poll.options.take(0) =~= Seq::empty());
    } else {
        lemma_counted_below(s, poll_id, n - 1);
        lemma_backers_finite(s, poll_id, n - 1);
        let below = counted_below(s, poll_id, n - 1);
        let here = s.backers(poll_id, n - 1);
        assert(below.disjoint(here));
        lemma_set_disjoint_lens(below, here);
        assert(counted_below(s, poll_id, n) =~= below + here);
        assert(poll.options.take(n).drop_last() =~= poll.options.take(n - 1));
        assert(poll.options.take(n).last() == poll.options[n - 1]);
        assert(poll.tally(n - 1) == here.len());
    }
}

/// In a consistent store, the tallies of a poll add up to the number of
/// voters who hold a ballot in it.
pub proof fn law_tallies_count_voters(s: StoreView, poll_id: Seq<char>)
    requires
        s.consistent(),
        s.polls.contains_key(poll_id),
    ensures
        s.voters(poll_id).finite(),
        s.polls[poll_id].total() == s.voters(poll_id).len(),
{
    let poll = s.polls[poll_id];
    let n = poll.options.len() as int;
    lemma_voters_finite(s, poll_id);
    lemma_counted_below(s, poll_id, n);
    assert(poll.options.take(n) =~= poll.options);
    assert forall|v: Seq<char>| s.voters(poll_id).contains(v) implies counted_below(
        s,
        poll_id,
        n,
    ).contains(v) by {
        lemma_position(poll, s.ballots[(v, poll_id)]);
    }
    assert(counted_below(s, poll_id, n) =~= s.voters(poll_id));
}

/// Replacing one option changes the sum of the tallies by the difference
/// of the two tallies.
pub proof fn lemma_total_update(options: Seq<(Seq<char>, nat)>, i: int, option: (Seq<char>, nat))
    requires
        0 <= i < options.len(),
    ensures
        total_votes(options.update(i, option)) == total_votes(options) - options[i].1 + option.1,
    decreases options.len(),
{
    let updated = options.update(i, option);
    if i == options.len() - 1 {
        assert(updated.drop_last() =~= options.drop_last());
    } else {
        assert(updated.drop_last() =~= options.drop_last().update(i, option));
        lemma_total_update(options.drop_last(), i, option);
    }
}

/// A voter who votes again for the label that the voter's ballot selects
/// changes nothing: the vote is accepted, and the store after it is the
/// store before it.
pub proof fn law_same_vote_changes_nothing(
    s: StoreView,
    voter: Seq<char>,
    poll_id: Seq<char>,
    label: Seq<char>,
)
    requires
        s.consistent(),
        s.ballot(voter, poll_id) == Some(label),
    ensures
        s.cast_vote(voter, poll_id, label) == Ok::<StoreView, ContractError>(s),
{
    assert(s.ballots.contains_key((voter, poll_id)));
    let t = s.cast_vote(voter, poll_id, label)->Ok_0;
    assert(t.polls =~= s.polls);
    assert(t.ballots =~= s.ballots);
}

/// A voter who holds a ballot for the label `from` and votes for another
/// listed label `to` moves one vote: the vote is accepted, the tally where
/// `from` counts is one less, the tally where `to` counts is one more,
/// every other tally and every label is as before, the poll's votes add
/// up to what they did, and the voter's ballot selects `to`.
pub proof fn law_changed_vote_moves_one(
    s: StoreView,
    voter: Seq<char>,
    poll_id: Seq<char>,
    from: Seq<char>,
    to: Seq<char>,
)
    requires
        s.consistent(),
        s.ballot(voter, poll_id) == Some(from),
        s.polls[poll_id].lists(to),
        from != to,
    ensures
        (s.cast_vote(voter, poll_id, to) matches Ok(t) && {
            let before = s.polls[poll_id];
            let after = t.polls[poll_id];
            let a = before.position(from);
            let b = before.position(to);
            &&& a != b
            &&& after.options.len() == before.options.len()
            &&& after.tally(a) == before.tally(a) - 1
            &&& after.tally(b) == before.tally(b) + 1
            &&& forall|i: int|
                0 <= i < before.options.len() && i != a && i != b ==> #[trigger] after.options[i]
                    == before.options[i]
            &&& forall|i: int|
                0 <= i < before.options.len() ==> (#[trigger] after.options[i]).0
                    == before.options[i].0
            &&& after.total() == before.total()
            &&& t.ballot(voter, poll_id) == Some(to)
            &&& t.voters(poll_id) == s.voters(poll_id)
        }),
{
    assert(s.ballots.contains_key((voter, poll_id)));
    let before = s.polls[poll_id];
    lemma_position(before, from);
    lemma_position(before, to);
    let a = before.position(from);
    let b = before.position(to);
    lemma_backers_finite(s, poll_id, a);
    assert(s.backers(poll_id, a).contains(voter));
    assert(before.tally(a) >= 1);
    let t = s.cast_vote(voter, poll_id, to)->Ok_0;
    let middle = before.debit(a);
    lemma_total_update(before.options, a, middle.options[a]);
    lemma_total_update(middle.options, b, t.polls[poll_id].options[b]);
    assert(t.voters(poll_id) =~= s.voters(poll_id));
}

/// A first vote for a listed label adds one vote: the vote is accepted,
/// the tally where the label counts is one more, every other option is as
/// before, and the voter holds a ballot for the label.
pub proof fn law_first_vote_adds_one(
    s: StoreView,
    voter: Seq<char>,
    poll_id: Seq<char>,
    label: Seq<char>,
)
    requires
        s.polls.contains_key(poll_id),
        s.polls[poll_id].lists(label),
        s.ballot(voter, poll_id) is None,
    ensures
        (s.cast_vote(voter, poll_id, label) matches Ok(t) && {
            let before = s.polls[poll_id];
            let after = t.polls[poll_id];
            let at = before.position(label);
            &&& after.options.len() == before.options.len()
            &&& after.options[at] == (label, before.tally(at) + 1)
            &&& forall|i: int|
                0 <= i < before.options.len() && i != at ==> #[trigger] after.options[i]
                    == before.options[i]
            &&& after.total() == before.total() + 1
            &&& t.ballot(voter, poll_id) == Some(label)
            &&& t.voters(poll_id) == s.voters(poll_id).insert(voter)
        }),
{
    let before = s.polls[poll_id];
    lemma_position(before, label);
    let at = before.position(label);
    let t = s.cast_vote(voter, poll_id, label)->Ok_0;
    lemma_total_update(before.options, at, t.polls[poll_id].options[at]);
    assert(t.voters(poll_id) =~= s.voters(poll_id).insert(voter));
}

/// A vote in a poll that does not exist fails with `PollNotFound`, whoever
/// casts it and whatever it selects.
pub proof fn law_unknown_poll(s: StoreView, voter: Seq<char>, poll_id: Seq<char>, label: Seq<char>)
    requires
        !s.polls.contains_key(poll_id),
    ensures
        s.cast_vote(voter, poll_id, label) == Err::<StoreView, ContractError>(
            ContractError::PollNotFound,
        ),
{
}

/// A vote for a label that the poll does not list fails with
/// `InvalidOption`.
pub proof fn law_unlisted_option(
    s: StoreView,
    voter: Seq<char>,
    poll_id: Seq<char>,
    label: Seq<char>,
)
    requires
        s.polls.contains_key(poll_id),
        !s.polls[poll_id].lists(label),
    ensures
        s.cast_vote(voter, poll_id, label) == Err::<StoreView, ContractError>(
            ContractError::InvalidOption,
        ),
{
}

/// The store that holds nothing is consistent.
pub proof fn law_empty_is_consistent()
    ensures
        StoreView::empty().consistent(),
{
    let s = StoreView::empty();
    assert forall|p: Seq<char>, i: int| #[trigger] s.backers(p, i).len() == 0 by {
        assert(s.backers(p, i) =~= Set::<Seq<char>>::empty());
    }
}

/// Initialisation leaves a consistent store consistent.
pub proof fn law_instantiate_keeps_consistent(s: StoreView, admin: Seq<char>)
    requires
        s.consistent(),
    ensures
        s.instantiate(admin).consistent(),
{
    let t = s.instantiate(admin);
    assert forall|p: Seq<char>, i: int| #[trigger] t.backers(p, i) == s.backers(p, i) by {
        assert(t.backers(p, i) =~= s.backers(p, i));
    }
}

/// A request that is carried out in a consistent store leaves it
/// consistent, and leaves what was there: the configuration is as before,
/// every poll is still there with its creator, its question and its labels
/// in their places, and every voter who held a ballot in a poll holds one.
pub proof fn law_requests_keep_what_is_there(s: StoreView, sender: Seq<char>, msg: ExecuteMsg)
    requires
        s.consistent(),
    ensures
        (outcome(s, sender, msg) matches Ok(t) ==> {
            &&& t.consistent()
            &&& t.config == s.config
            &&& forall|p: Seq<char>| #[trigger]
                s.polls.contains_key(p) ==> {
                    &&& t.polls.contains_key(p)
                    &&& t.polls[p].creator == s.polls[p].creator
                    &&& t.polls[p].question == s.polls[p].question
                    &&& same_labels(s.polls[p], t.polls[p])
                }
            &&& forall|v: Seq<char>, p: Seq<char>| #[trigger]
                s.ballots.contains_key((v, p)) ==> t.ballots.contains_key((v, p))
        }),
{
    match msg {
        ExecuteMsg::CreatePoll { poll_id, question, options } => {
            lemma_create_keeps_consistent(s, poll_id@, sender, question@, labels_view(options@));
        },
        ExecuteMsg::Vote { poll_id, vote } => {
            lemma_vote_keeps_consistent(s, sender, poll_id@, vote@);
            if outcome(s, sender, msg) is Ok {
                let previous = s.ballot(sender, poll_id@);
                if previous is Some {
                    assert(s.ballots.contains_key((sender, poll_id@)));
                }
                lemma_vote_keeps_labels(s.polls[poll_id@], previous, vote@);
            }
        },
    }
}

/// The store after a run of requests, each with its sender, one after the
/// other. A request that is refused leaves the store as it was.
pub open spec fn after_requests(s: StoreView, requests: Seq<(Seq<char>, ExecuteMsg)>) -> StoreView
    decreases requests.len(),
{
    if requests.len() == 0 {
        s
    } else {
        let before = after_requests(s, requests.drop_last());
        match outcome(before, requests.last().0, requests.last().1) {
            Ok(next) => next,
            Err(_) => before,
        }
    }
}

/// After any run of requests on a consistent store, the store is
/// consistent, and in every poll the tallies add up to the number of
/// voters who hold a ballot in it.
pub proof fn law_tallies_count_voters_after(s: StoreView, requests: Seq<(Seq<char>, ExecuteMsg)>)
    requires
        s.consistent(),
    ensures
        after_requests(s, requests).consistent(),
        forall|p: Seq<char>| #[trigger]
            after_requests(s, requests).polls.contains_key(p) ==> after_requests(
                s,
                requests,
            ).polls[p].total() == after_requests(s, requests).voters(p).len(),
    decreases requests.len(),
{
    if requests.len() > 0 {
        law_tallies_count_voters_after(s, requests.drop_last());
        let before = after_requests(s, requests.drop_last());
        law_requests_keep_what_is_there(before, requests.last().0, requests.last().1);
    }
    let t = after_requests(s, requests);
    assert forall|p: Seq<char>| #[trigger] t.polls.contains_key(p) implies t.polls[p].total()
        == t.voters(p).len() by {
        law_tallies_count_voters(t, p);
    }
}

} // verus!
