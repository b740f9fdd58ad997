//! The record store as a value: the configuration, the polls by identifier
//! and the ballots by voter and poll, with the rule that ties tallies to
//! ballots.

use vstd::prelude::*;
use vstd::set_lib::*;
use crate::assoc::{
    lemma_lookup_at, lemma_lookup_len, lemma_lookup_push, lemma_lookup_update, lookup,
};
use crate::error::ContractError;
use crate::state::{
    labels_view, lemma_position, lemma_same_labels, lemma_vote_keeps_labels, Ballot, Config,
    ConfigView, Poll, PollView,
};
use crate::voting::{create_poll, poll_created, vote_cast};

verus! {

/// What a store holds.
pub struct StoreView {
    /// The configuration, once the store was initialised.
    pub config: Option<ConfigView>,
    /// The polls, by identifier.
    pub polls: Map<Seq<char>, PollView>,
    /// The label that each voter selects in each poll, by voter and poll
    /// identifier.
    pub ballots: Map<(Seq<char>, Seq<char>), Seq<char>>,
}

impl StoreView {
    /// The store that holds nothing.
    pub open spec fn empty() -> StoreView {
        StoreView { config: None, polls: Map::empty(), ballots: Map::empty() }
    }

    /// The poll under `poll_id`, if there is one.
    pub open spec fn poll(self, poll_id: Seq<char>) -> Option<PollView> {
        if self.polls.contains_key(poll_id) {
            Some(self.polls[poll_id])
        } else {
            None
        }
    }

    /// What `voter` selects in the poll `poll_id`, if the voter holds a
    /// ballot there.
    pub open spec fn ballot(self, voter: Seq<char>, poll_id: Seq<char>) -> Option<Seq<char>> {
        if self.ballots.contains_key((voter, poll_id)) {
            Some(self.ballots[(voter, poll_id)])
        } else {
            None
        }
    }

    /// The voters who hold a ballot in the poll `poll_id`.
    pub open spec fn voters(self, poll_id: Seq<char>) -> Set<Seq<char>> {
        Set::new(|v: Seq<char>| self.ballots.contains_key((v, poll_id)))
    }

    /// The voters whose ballot in the poll `poll_id` counts for the option
    /// at place `i`.
    pub open spec fn backers(self, poll_id: Seq<char>, i: int) -> Set<Seq<char>> {
        Set::new(
            |v: Seq<char>|
                self.ballots.contains_key((v, poll_id)) && self.polls[poll_id].position(
                    self.ballots[(v, poll_id)],
                ) == i,
        )
    }

    /// The rule that ties tallies to ballots: every ballot belongs to a
    /// poll and selects a label that the poll lists, and every tally is the
    /// number of voters whose ballot counts for that option.
    pub open spec fn consistent(self) -> bool {
        &&& self.ballots.dom().finite()
        &&& forall|v: Seq<char>, p: Seq<char>| #[trigger]
            self.ballots.contains_key((v, p)) ==> self.polls.contains_key(p)
                && self.polls[p].lists(self.ballots[(v, p)])
        &&& forall|p: Seq<char>, i: int|
            self.polls.contains_key(p) && 0 <= i < self.polls[p].options.len()
                ==> self.polls[p].tally(i) == (#[trigger] self.backers(p, i)).len()
    }

    /// The store after initialisation with `admin` as administrator.
    pub open spec fn instantiate(self, admin: Seq<char>) -> StoreView {
        StoreView { config: Some(ConfigView { admin }), ..self }
    }

    /// The store after `creator` creates a poll under `poll_id`, or the
    /// reason why none is created.
    pub open spec fn create_poll(
        self,
        poll_id: Seq<char>,
        creator: Seq<char>,
        question: Seq<char>,
        labels: Seq<Seq<char>>,
    ) -> Result<StoreView, ContractError> {
        match poll_created(self.polls.contains_key(poll_id), creator, question, labels) {
            Ok(poll) => Ok(StoreView { polls: self.polls.insert(poll_id, poll), ..self }),
            Err(e) => Err(e),
        }
    }

    /// The store after `voter` votes for `label` in the poll `poll_id`, or
    /// the reason why the vote is refused.
    pub open spec fn cast_vote(
        self,
        voter: Seq<char>,
        poll_id: Seq<char>,
        label: Seq<char>,
    ) -> Result<StoreView, ContractError> {
        match vote_cast(self.poll(poll_id), self.ballot(voter, poll_id), label) {
            Ok((poll, ballot)) => Ok(
                StoreView {
                    polls: self.polls.insert(poll_id, poll),
                    ballots: self.ballots.insert((voter, poll_id), ballot),
                    ..self
                },
            ),
            Err(e) => Err(e),
        }
    }
}

/// Whether `after` and `done` are what an operation makes of the store
/// `before`, where `outcome` is the store that the operation leads to or
/// the reason for refusing it: an operation that is carried out leaves the
/// new store; one that is refused names the reason and leaves the store as
/// it was.
pub open spec fn settled(
    before: StoreView,
    outcome: Result<StoreView, ContractError>,
    after: StoreView,
    done: Result<(), ContractError>,
) -> bool {
    match outcome {
        Ok(next) => done is Ok && after == next,
        Err(e) => after == before && (done matches Err(refusal) && refusal == e),
    }
}

/// In a store with finitely many ballots, a poll has finitely many voters,
/// no more than there are ballots.
pub proof fn lemma_voters_finite(s: StoreView, poll_id: Seq<char>)
    requires
        s.ballots.dom().finite(),
    ensures
        s.voters(poll_id).finite(),
        s.voters(poll_id).len() <= s.ballots.len(),
{
    let in_poll = |k: (Seq<char>, Seq<char>)| k.1 == poll_id;
    let keys = s.ballots.dom().filter(in_poll);
    let voter_of = |k: (Seq<char>, Seq<char>)| k.0;
    s.ballots.dom().lemma_len_filter(in_poll);
    assert forall|v: Seq<char>| s.voters(poll_id).contains(v) implies keys.map(voter_of).contains(
        v,
    ) by {
        assert(keys.contains((v, poll_id)) && voter_of((v, poll_id)) == v);
    }
    assert(keys.map(voter_of) =~= s.voters(poll_id));
    lemma_map_size_bound(keys, s.voters(poll_id), voter_of);
}

/// Those who back one option of a poll are among its voters.
pub proof fn lemma_backers_finite(s: StoreView, poll_id: Seq<char>, i: int)
    requires
        s.ballots.dom().finite(),
    ensures
        s.backers(poll_id, i).subset_of(s.voters(poll_id)),
        s.backers(poll_id, i).finite(),
        s.backers(poll_id, i).len() <= s.voters(poll_id).len(),
{
    lemma_voters_finite(s, poll_id);
    lemma_len_subset(s.backers(poll_id, i), s.voters(poll_id));
}

/// Creating a poll in a consistent store leaves it consistent.
pub proof fn lemma_create_keeps_consistent(
    s: StoreView,
    poll_id: Seq<char>,
    creator: Seq<char>,
    question: Seq<char>,
    labels: Seq<Seq<char>>,
)
    requires
        s.consistent(),
    ensures
        s.create_poll(poll_id, creator, question, labels) matches Ok(t) ==> t.consistent(),
{
    if let Ok(t) = s.create_poll(poll_id, creator, question, labels) {
        assert(!s.polls.contains_key(poll_id));
        assert forall|p: Seq<char>, i: int|
            t.polls.contains_key(p) && 0 <= i < t.polls[p].options.len() implies t.polls[p].tally(
            i,
        ) == (#[trigger] t.backers(p, i)).len() by {
            if p == poll_id {
                assert(t.backers(p, i) =~= Set::<Seq<char>>::empty());
            } else {
                assert(t.backers(p, i) =~= s.backers(p, i));
            }
        }
    }
}

/// In a consistent store, every vote for a listed label can be counted,
/// provided that the number of ballots, with the one that a first vote
/// adds, stays within the range of a tally: a voter's former choice is
/// found with at least that voter's vote on it, and the tally that grows is
/// below its limit.
pub proof fn lemma_vote_countable(
    s: StoreView,
    voter: Seq<char>,
    poll_id: Seq<char>,
    label: Seq<char>,
)
    requires
        s.consistent(),
        s.polls.contains_key(poll_id),
        s.polls[poll_id].lists(label),
        s.ballots.len() <= u64::MAX,
        s.ballot(voter, poll_id) is None ==> s.ballots.len() < u64::MAX,
    ensures
        s.polls[poll_id].can_count(s.ballot(voter, poll_id), label),
{
    let poll = s.polls[poll_id];
    lemma_position(poll, label);
    lemma_voters_finite(s, poll_id);
    let to = poll.position(label);
    lemma_backers_finite(s, poll_id, to);
    match s.ballot(voter, poll_id) {
        None => {},
        Some(before) => {
            if before != label {
                assert(s.ballots.contains_key((voter, poll_id)));
                lemma_position(poll, before);
                let from = poll.position(before);
                lemma_backers_finite(s, poll_id, from);
                assert(s.backers(poll_id, from).contains(voter));
                assert(s.backers(poll_id, to).subset_of(s.voters(poll_id).remove(voter)));
                lemma_len_subset(s.backers(poll_id, to), s.voters(poll_id).remove(voter));
            }
        },
    }
}

/// A vote that is accepted in a consistent store leaves it consistent.
pub proof fn lemma_vote_keeps_consistent(
    s: StoreView,
    voter: Seq<char>,
    poll_id: Seq<char>,
    label: Seq<char>,
)
    requires
        s.consistent(),
    ensures
        s.cast_vote(voter, poll_id, label) matches Ok(t) ==> t.consistent(),
{
    if let Ok(t) = s.cast_vote(voter, poll_id, label) {
        let poll = s.polls[poll_id];
        let previous = s.ballot(voter, poll_id);
        let after = poll.after_vote(previous, label);
        assert(t.polls[poll_id] == after);
        lemma_position(poll, label);
        let to = poll.position(label);
        if let Some(before) = previous {
            assert(s.ballots.contains_key((voter, poll_id)));
            lemma_position(poll, before);
        }
        lemma_vote_keeps_labels(poll, previous, label);
        lemma_voters_finite(s, poll_id);
        assert forall|v: Seq<char>, p: Seq<char>| #[trigger]
            t.ballots.contains_key((v, p)) implies t.polls.contains_key(p) && t.polls[p].lists(
            t.ballots[(v, p)],
        ) by {
            if p == poll_id {
                if v == voter {
                    lemma_same_labels(poll, after, label);
                } else {
                    assert(s.ballots.contains_key((v, p)));
                    lemma_same_labels(poll, after, s.ballots[(v, p)]);
                }
            } else {
                assert(s.ballots.contains_key((v, p)));
            }
        }
        assert forall|p: Seq<char>, i: int|
            t.polls.contains_key(p) && 0 <= i < t.polls[p].options.len() implies t.polls[p].tally(
            i,
        ) == (#[trigger] t.backers(p, i)).len() by {
            if p != poll_id {
                assert(t.backers(p, i) =~= s.backers(p, i));
            } else {
                assert forall|v: Seq<char>| v != voter implies (t.backers(p, i).contains(v)
                    <==> s.backers(p, i).contains(v)) by {
                    if s.ballots.contains_key((v, p)) {
                        lemma_same_labels(poll, after, s.ballots[(v, p)]);
                    }
                }
                lemma_same_labels(poll, after, label);
                assert(t.backers(p, i).contains(voter) <==> i == to);
                lemma_backers_finite(s, p, i);
                match previous {
                    None => {
                        assert(!s.backers(p, i).contains(voter));
                        if i == to {
                            assert(t.backers(p, i) =~= s.backers(p, i).insert(voter));
                        } else {
                            assert(t.backers(p, i) =~= s.backers(p, i));
                        }
                    },
                    Some(before) => {
                        let from = poll.position(before);
                        assert(s.backers(p, i).contains(voter) <==> i == from);
                        if before == label {
                            assert(t.backers(p, i) =~= s.backers(p, i));
                        } else {
                            assert(from != to);
                            if i == to {
                                assert(t.backers(p, i) =~= s.backers(p, i).insert(voter));
                            } else if i == from {
                                assert(t.backers(p, i) =~= s.backers(p, i).remove(voter));
                            } else {
                                assert(t.backers(p, i) =~= s.backers(p, i));
                            }
                        }
                    },
                }
            }
        }
    }
}

/// The record store: the configuration, the polls under their identifiers
/// and the ballots under voter and poll identifier. No identifier and no
/// pair of voter and poll stands twice.
#[derive(Debug)]
pub struct Store {
    config: Option<Config>,
    polls: Vec<(String, Poll)>,
    ballots: Vec<(String, String, Ballot)>,
}

/// What an optional configuration holds.
pub open spec fn config_view(config: Option<Config>) -> Option<ConfigView> {
    match config {
        Some(c) => Some(c@),
        None => None,
    }
}

spec fn poll_keys(entries: Seq<(String, Poll)>) -> Seq<Seq<char>> {
    Seq::new(entries.len(), |i: int| entries[i].0@)
}

spec fn poll_vals(entries: Seq<(String, Poll)>) -> Seq<PollView> {
    Seq::new(entries.len(), |i: int| entries[i].1@)
}

spec fn ballot_keys(entries: Seq<(String, String, Ballot)>) -> Seq<(Seq<char>, Seq<char>)> {
    Seq::new(entries.len(), |i: int| (entries[i].0@, entries[i].1@))
}

spec fn ballot_vals(entries: Seq<(String, String, Ballot)>) -> Seq<Seq<char>> {
    Seq::new(entries.len(), |i: int| entries[i].2@)
}

impl View for Store {
    type V = StoreView;

    closed spec fn view(&self) -> StoreView {
        StoreView {
            config: config_view(self.config),
            polls: lookup(poll_keys(self.polls@), poll_vals(self.polls@)),
            ballots: lookup(ballot_keys(self.ballots@), ballot_vals(self.ballots@)),
        }
    }
}

impl Store {
    /// Whether the store is in order: no key stands twice, and what it
    /// holds is consistent.
    pub closed spec fn wf(&self) -> bool {
        &&& poll_keys(self.polls@).no_duplicates()
        &&& ballot_keys(self.ballots@).no_duplicates()
        &&& self@.consistent()
    }

    /// What a store in order holds is consistent.
    pub proof fn lemma_wf_consistent(&self)
        requires
            self.wf(),
        ensures
            self@.consistent(),
    {
    }

    /// A store that holds nothing.
    pub fn new() -> (store: Store)
        ensures
            store.wf(),
            store@ == StoreView::empty(),
    {
        let store = Store { config: None, polls: Vec::new(), ballots: Vec::new() };
        proof {
            assert(store@.polls =~= Map::empty());
            assert(store@.ballots =~= Map::empty());
            assert forall|p: Seq<char>, i: int| #[trigger]
                store@.backers(p, i).len() == 0 by {
                assert(store@.backers(p, i) =~= Set::<Seq<char>>::empty());
            }
        }
        store
    }

    /// The configuration, if the store was initialised.
    pub fn config(&self) -> (config: &Option<Config>)
        ensures
            config_view(*config) == self@.config,
    {
        &self.config
    }

    /// The number of ballots that the store holds.
    pub fn ballot_count(&self) -> (count: usize)
        requires
            self.wf(),
        ensures
            count == self@.ballots.len(),
    {
        proof {
            lemma_lookup_len(ballot_keys(self.ballots@), ballot_vals(self.ballots@));
        }
        self.ballots.len()
    }

    fn find_poll(&self, poll_id: &String) -> (at: Option<usize>)
        ensures
            at matches Some(i) ==> i < self.polls.len() && poll_keys(self.polls@)[i as int]
                == poll_id@,
            at is None ==> !poll_keys(self.polls@).contains(poll_id@),
    {
        let mut i: usize = 0;
        while i < self.polls.len()
            invariant
                i <= self.polls.len(),
                forall|j: int| 0 <= j < i ==> poll_keys(self.polls@)[j] != poll_id@,
            decreases self.polls.len() - i,
        {
            if self.polls[i].0 == *poll_id {
                return Some(i);
            }
            i += 1;
        }
        None
    }

    fn find_ballot(&self, voter: &String, poll_id: &String) -> (at: Option<usize>)
        ensures
            at matches Some(i) ==> i < self.ballots.len() && ballot_keys(self.ballots@)[i as int]
                == (voter@, poll_id@),
            at is None ==> !ballot_keys(self.ballots@).contains((voter@, poll_id@)),
    {
        let mut i: usize = 0;
        while i < self.ballots.len()
            invariant
                i <= self.ballots.len(),
                forall|j: int| 0 <= j < i ==> ballot_keys(self.ballots@)[j] != (voter@, poll_id@),
            decreases self.ballots.len() - i,
        {
            if self.ballots[i].0 == *voter && self.ballots[i].1 == *poll_id {
                return Some(i);
            }
            i += 1;
        }
        None
    }

    /// The poll under `poll_id`, if there is one.
    pub fn poll(&self, poll_id: &String) -> (poll: Option<&Poll>)
        requires
            self.wf(),
        ensures
            poll matches Some(p) ==> self@.poll(poll_id@) == Some(p@),
            poll is None ==> self@.poll(poll_id@) is None,
    {
        match self.find_poll(poll_id) {
            Some(i) => {
                proof {
                    lemma_lookup_at(poll_keys(self.polls@), poll_vals(self.polls@), i as int);
                }
                Some(&self.polls[i].1)
            },
            None => None,
        }
    }

    /// The ballot that `voter` holds in the poll `poll_id`, if there is
    /// one.
    pub fn ballot(&self, voter: &String, poll_id: &String) -> (ballot: Option<&Ballot>)
        requires
            self.wf(),
        ensures
            ballot matches Some(b) ==> self@.ballot(voter@, poll_id@) == Some(b@),
            ballot is None ==> self@.ballot(voter@, poll_id@) is None,
    {
        match self.find_ballot(voter, poll_id) {
            Some(i) => {
                proof {
                    lemma_lookup_at(
                        ballot_keys(self.ballots@),
                        ballot_vals(self.ballots@),
                        i as int,
                    );
                }
                Some(&self.ballots[i].2)
            },
            None => None,
        }
    }

    /// Records `admin` as the administrator. Polls and ballots stay as
    /// they are; an administrator recorded before is replaced.
    pub fn instantiate(&mut self, admin: String)
        requires
            old(self).wf(),
        ensures
            final(self).wf(),
            final(self)@ == old(self)@.instantiate(admin@),
    {
        self.config = Some(Config { admin });
        proof {
            assert forall|p: Seq<char>, i: int| #[trigger]
                self@.backers(p, i) == old(self)@.backers(p, i) by {
                assert(self@.backers(p, i) =~= old(self)@.backers(p, i));
            }
        }
    }

    /// Creates a poll under `poll_id` for `creator`, with one option per
    /// label in the order given and no votes. Refuses more than ten
    /// options, and an identifier that is taken; the store then stays as
    /// it is.
    pub fn create_poll(
        &mut self,
        poll_id: String,
        creator: String,
        question: String,
        options: Vec<String>,
    ) -> (done: Result<(), ContractError>)
        requires
            old(self).wf(),
        ensures
            final(self).wf(),
            settled(
                old(self)@,
                old(self)@.create_poll(poll_id@, creator@, question@, labels_view(options@)),
                final(self)@,
                done,
            ),
    {
        let taken = self.find_poll(&poll_id).is_some();
        proof {
            let keys = poll_keys(self.polls@);
            if taken {
                let i = keys.index_of(poll_id@);
                lemma_lookup_at(keys, poll_vals(self.polls@), i);
            }
            lemma_create_keeps_consistent(
                self@,
                poll_id@,
                creator@,
                question@,
                labels_view(options@),
            );
        }
        match create_poll(taken, creator, question, options) {
            Err(e) => Err(e),
            Ok(poll) => {
                proof {
                    lemma_lookup_push(
                        poll_keys(self.polls@),
                        poll_vals(self.polls@),
                        poll_id@,
                        poll@,
                    );
                }
                self.polls.push((poll_id, poll));
                proof {
                    assert(poll_keys(self.polls@) =~= poll_keys(old(self).polls@).push(poll_id@));
                    assert(poll_vals(self.polls@) =~= poll_vals(old(self).polls@).push(poll@));
                }
                Ok(())
            },
        }
    }

    /// Casts a vote by `voter` for `option` in the poll `poll_id`. A first
    /// vote adds one to the option's tally; a vote for the option already
    /// chosen changes nothing; a changed vote moves the voter's one vote
    /// from the former option to `option`. Refuses a poll that does not
    /// exist and a label that the poll does not list; the store then stays
    /// as it is.
    pub fn cast_vote(&mut self, voter: &String, poll_id: &String, option: &String) -> (done: Result<
        (),
        ContractError,
    >)
        requires
            old(self).wf(),
        ensures
            final(self).wf(),
            settled(
                old(self)@,
                old(self)@.cast_vote(voter@, poll_id@, option@),
                final(self)@,
                done,
            ),
    {
        let at = match self.find_poll(poll_id) {
            None => {
                return Err(ContractError::PollNotFound);
            },
            Some(i) => i,
        };
        proof {
            lemma_lookup_at(poll_keys(self.polls@), poll_vals(self.polls@), at as int);
        }
        if self.polls[at].1.position(option).is_none() {
            return Err(ContractError::InvalidOption);
        }
        let slot = self.find_ballot(voter, poll_id);
        proof {
            lemma_lookup_len(ballot_keys(self.ballots@), ballot_vals(self.ballots@));
            lemma_vote_keeps_consistent(self@, voter@, poll_id@, option@);
        }
        let previous = match slot {
            None => {
                let ballot = Ballot { option: option.clone() };
                proof {
                    lemma_lookup_push(
                        ballot_keys(self.ballots@),
                        ballot_vals(self.ballots@),
                        (voter@, poll_id@),
                        ballot@,
                    );
                }
                self.ballots.push((voter.clone(), poll_id.clone(), ballot));
                proof {
                    assert(self.ballots.len() == old(self).ballots@.len() + 1);
                    assert(ballot_keys(self.ballots@) =~= ballot_keys(old(self).ballots@).push(
                        (voter@, poll_id@),
                    ));
                    assert(ballot_vals(self.ballots@) =~= ballot_vals(old(self).ballots@).push(
                        option@,
                    ));
                }
                None
            },
            Some(b) => {
                proof {
                    lemma_lookup_at(
                        ballot_keys(self.ballots@),
                        ballot_vals(self.ballots@),
                        b as int,
                    );
                }
                if self.ballots[b].2.option == *option {
                    proof {
                        let kept = self@.cast_vote(voter@, poll_id@, option@)->Ok_0;
                        assert(kept.polls =~= self@.polls);
                        assert(kept.ballots =~= self@.ballots);
                    }
                    return Ok(());
                }
                proof {
                    lemma_lookup_update(
                        ballot_keys(self.ballots@),
                        ballot_vals(self.ballots@),
                        b as int,
                        option@,
                    );
                }
                let (who, place, before) = self.ballots.remove(b);
                self.ballots.insert(b, (who, place, Ballot { option: option.clone() }));
                proof {
                    assert(ballot_keys(self.ballots@) =~= ballot_keys(old(self).ballots@));
                    assert(ballot_vals(self.ballots@) =~= ballot_vals(old(self).ballots@).update(
                        b as int,
                        option@,
                    ));
                }
                Some(before)
            },
        };
        proof {
            lemma_vote_countable(old(self)@, voter@, poll_id@, option@);
        }
        let (id, mut poll) = self.polls.remove(at);
        poll.count_vote(&previous, option);
        proof {
            lemma_lookup_update(
                poll_keys(old(self).polls@),
                poll_vals(old(self).polls@),
                at as int,
                poll@,
            );
        }
        self.polls.insert(at, (id, poll));
        proof {
            assert(poll_keys(self.polls@) =~= poll_keys(old(self).polls@));
            assert(poll_vals(self.polls@) =~= poll_vals(old(self).polls@).update(at as int, poll@));
        }
        Ok(())
    }
}

} // verus!
