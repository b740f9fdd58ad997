//! The records that are kept: the configuration, polls and ballots.

use vstd::prelude::*;

verus! {

/// The most options a poll may be created with.
pub const MAX_OPTIONS: usize = 10;

/// The deployment's settings: who administers it.
#[derive(Debug, Clone, PartialEq, Eq)]
pub struct Config {
    pub admin: String,
}

/// A question with its options, in the order they were given, and the
/// number of votes each option holds.
#[derive(Debug, Clone, PartialEq, Eq)]
pub struct Poll {
    pub creator: String,
    pub question: String,
    pub options: Vec<(String, u64)>,
}

/// One voter's current choice in one poll.
#[derive(Debug, Clone, PartialEq, Eq)]
pub struct Ballot {
    pub option: String,
}

/// What a `Config` holds.
pub struct ConfigView {
    pub admin: Seq<char>,
}

/// What a `Poll` holds: its options as pairs of label and tally.
pub struct PollView {
    pub creator: Seq<char>,
    pub question: Seq<char>,
    pub options: Seq<(Seq<char>, nat)>,
}

impl View for Config {
    type V = ConfigView;

    open spec fn view(&self) -> ConfigView {
        ConfigView { admin: self.admin@ }
    }
}

impl View for Ballot {
    type V = Seq<char>;

    /// A ballot is the label it selects.
    open spec fn view(&self) -> Seq<char> {
        self.option@
    }
}

impl View for Poll {
    type V = PollView;

    open spec fn view(&self) -> PollView {
        PollView {
            creator: self.creator@,
            question: self.question@,
            options: Seq::new(
                self.options@.len(),
                |i: int| (self.options@[i].0@, self.options@[i].1 as nat),
            ),
        }
    }
}

/// What an optional ballot selects.
pub open spec fn ballot_view(ballot: Option<Ballot>) -> Option<Seq<char>> {
    match ballot {
        Some(b) => Some(b@),
        None => None,
    }
}

/// The labels that `names` hold, in their order.
pub open spec fn labels_view(names: Seq<String>) -> Seq<Seq<char>> {
    Seq::new(names.len(), |i: int| names[i]@)
}

/// The options that a poll starts with: each label in its place, no votes.
pub open spec fn fresh_options(labels: Seq<Seq<char>>) -> Seq<(Seq<char>, nat)> {
    Seq::new(labels.len(), |i: int| (labels[i], 0nat))
}

/// The sum of the tallies of `options`.
pub open spec fn total_votes(options: Seq<(Seq<char>, nat)>) -> nat
    decreases options.len(),
{
    if options.len() == 0 {
        0
    } else {
        total_votes(options.drop_last()) + options.last().1
    }
}

impl PollView {
    /// Whether some option carries `label`.
    pub open spec fn lists(self, label: Seq<char>) -> bool {
        exists|i: int| 0 <= i < self.options.len() && (#[trigger] self.options[i]).0 == label
    }

    /// Whether no two options carry the same label.
    pub open spec fn distinct_labels(self) -> bool {
        forall|i: int, j: int|
            0 <= i < j < self.options.len() ==> (#[trigger] self.options[i]).0
                != (#[trigger] self.options[j]).0
    }

    /// Whether `i` is the place of the first option that carries `label`.
    pub open spec fn first_at(self, label: Seq<char>, i: int) -> bool {
        &&& 0 <= i < self.options.len()
        &&& self.options[i].0 == label
        &&& forall|j: int| 0 <= j < i ==> (#[trigger] self.options[j]).0 != label
    }

    /// The place of the first option that carries `label`; a vote for
    /// `label` counts there. Meaningful where the poll lists `label`.
    pub open spec fn position(self, label: Seq<char>) -> int {
        choose|i: int| self.first_at(label, i)
    }

    /// The tally of the option at place `i`.
    pub open spec fn tally(self, i: int) -> nat {
        self.options[i].1
    }

    /// The number of votes that the poll holds over all its options.
    pub open spec fn total(self) -> nat {
        total_votes(self.options)
    }

    /// The poll with one vote more at place `i`.
    pub open spec fn credit(self, i: int) -> PollView {
        PollView {
            options: self.options.update(i, (self.options[i].0, self.options[i].1 + 1)),
            ..self
        }
    }

    /// The poll with one vote less at place `i`.
    pub open spec fn debit(self, i: int) -> PollView {
        PollView {
            options: self.options.update(
                i,
                (self.options[i].0, (self.options[i].1 - 1) as nat),
            ),
            ..self
        }
    }

    /// The poll after a vote for `label` by a voter whose ballot so far is
    /// `previous`: a first vote adds one to `label`; a vote for the label
    /// already chosen changes nothing; a changed vote moves one vote from
    /// the label chosen before to `label`.
    pub open spec fn after_vote(self, previous: Option<Seq<char>>, label: Seq<char>) -> PollView {
        match previous {
            None => self.credit(self.position(label)),
            Some(before) => if before == label {
                self
            } else {
                self.debit(self.position(before)).credit(self.position(label))
            },
        }
    }

    /// Whether a vote for a listed `label` after `previous` can be counted:
    /// a vote that is moved is found where it was counted, and the tally
    /// that grows has room.
    pub open spec fn can_count(self, previous: Option<Seq<char>>, label: Seq<char>) -> bool {
        match previous {
            None => self.tally(self.position(label)) < u64::MAX,
            Some(before) => before == label || {
                &&& self.lists(before)
                &&& self.tally(self.position(before)) >= 1
                &&& self.tally(self.position(label)) < u64::MAX
            },
        }
    }
}

/// A listed label has exactly one first place.
pub proof fn lemma_position(poll: PollView, label: Seq<char>)
    requires
        poll.lists(label),
    ensures
        poll.first_at(label, poll.position(label)),
        forall|i: int| poll.first_at(label, i) ==> i == poll.position(label),
{
    let k = choose|i: int| 0 <= i < poll.options.len() && (#[trigger] poll.options[i]).0 == label;
    lemma_first_below(poll, label, k);
    let p = poll.position(label);
    assert forall|i: int| poll.first_at(label, i) implies i == p by {
        if i < p {
            assert(poll.options[i].0 == label);
        } else if p < i {
            assert(poll.options[p].0 == label);
        }
    }
}

/// An option that carries `label` at place `k` has a first place at or
/// before `k`.
proof fn lemma_first_below(poll: PollView, label: Seq<char>, k: int)
    requires
        0 <= k < poll.options.len(),
        poll.options[k].0 == label,
    ensures
        exists|i: int| 0 <= i <= k && poll.first_at(label, i),
    decreases k,
{
    if exists|j: int| 0 <= j < k && (#[trigger] poll.options[j]).0 == label {
        let j = choose|j: int| 0 <= j < k && (#[trigger] poll.options[j]).0 == label;
        lemma_first_below(poll, label, j);
    } else {
        assert(poll.first_at(label, k));
    }
}

/// Whether two polls carry the same labels in the same places.
pub open spec fn same_labels(a: PollView, b: PollView) -> bool {
    &&& a.options.len() == b.options.len()
    &&& forall|j: int| 0 <= j < a.options.len() ==> (#[trigger] a.options[j]).0 == b.options[j].0
}

/// Polls with the same labels list the same labels at the same first
/// places.
pub proof fn lemma_same_labels(a: PollView, b: PollView, label: Seq<char>)
    requires
        same_labels(a, b),
        a.lists(label),
    ensures
        b.lists(label),
        b.position(label) == a.position(label),
{
    lemma_position(a, label);
    let i = a.position(label);
    assert(b.options[i].0 == label) by {
        assert(a.options[i].0 == label);
    }
    assert forall|j: int| 0 <= j < i implies (#[trigger] b.options[j]).0 != label by {
        assert(a.options[j].0 != label);
    }
    assert(b.first_at(label, i));
    lemma_position(b, label);
}

/// Counting a vote leaves every label in its place.
pub proof fn lemma_vote_keeps_labels(poll: PollView, previous: Option<Seq<char>>, label: Seq<char>)
    requires
        poll.lists(label),
        previous matches Some(before) ==> poll.lists(before),
    ensures
        same_labels(poll, poll.after_vote(previous, label)),
{
    lemma_position(poll, label);
    if let Some(before) = previous {
        lemma_position(poll, before);
    }
}

impl Poll {
    /// Finds the first option that carries `label`.
    pub fn position(&self, label: &String) -> (place: Option<usize>)
        ensures
            place is Some <==> self@.lists(label@),
            place matches Some(i) ==> i == self@.position(label@) && self@.first_at(label@, i as int),
    {
        let mut i: usize = 0;
        while i < self.options.len()
            invariant
                i <= self.options.len(),
                forall|j: int| 0 <= j < i ==> (#[trigger] self@.options[j]).0 != label@,
            decreases self.options.len() - i,
        {
            if self.options[i].0 == *label {
                proof {
                    assert(self@.options[i as int].0 == label@);
                    assert(self@.first_at(label@, i as int));
                    lemma_position(self@, label@);
                }
                return Some(i);
            }
            i += 1;
        }
        None
    }

    /// The place of the first option that carries `label`, for a label
    /// that the poll lists.
    fn place_of(&self, label: &String) -> (place: usize)
        requires
            self@.lists(label@),
        ensures
            place == self@.position(label@),
            self@.first_at(label@, place as int),
    {
        proof {
            lemma_position(self@, label@);
        }
        let mut i: usize = 0;
        loop
            invariant
                self@.first_at(label@, self@.position(label@)),
                i <= self@.position(label@),
            decreases self@.position(label@) - i,
        {
            if self.options[i].0 == *label {
                assert(self@.options[i as int].0 == label@);
                return i;
            }
            assert(self@.options[i as int].0 != label@);
            assert(i < self@.position(label@) < self.options.len());
            i += 1;
        }
    }

    /// Whether the poll lists `label` and a vote for it after `previous`
    /// can be counted.
    pub fn can_count(&self, previous: &Option<Ballot>, label: &String) -> (yes: bool)
        ensures
            yes == (self@.lists(label@) && self@.can_count(ballot_view(*previous), label@)),
    {
        match self.position(label) {
            None => false,
            Some(to) => match previous {
                None => self.options[to].1 < u64::MAX,
                Some(ballot) => {
                    if ballot.option == *label {
                        true
                    } else {
                        match self.position(&ballot.option) {
                            None => false,
                            Some(from) => self.options[from].1 >= 1 && self.options[to].1
                                < u64::MAX,
                        }
                    }
                },
            },
        }
    }

    /// Counts a vote for `label` by a voter whose ballot so far is
    /// `previous`.
    pub fn count_vote(&mut self, previous: &Option<Ballot>, label: &String)
        requires
            old(self)@.lists(label@),
            old(self)@.can_count(ballot_view(*previous), label@),
        ensures
            final(self)@ == old(self)@.after_vote(ballot_view(*previous), label@),
    {
        let to = self.place_of(label);
        match previous {
            None => {
                self.credit(to);
            },
            Some(before) => {
                if !(before.option == *label) {
                    let from = self.place_of(&before.option);
                    self.debit(from);
                    self.credit(to);
                }
            },
        }
    }

    /// Adds one vote to the option at `place`.
    fn credit(&mut self, place: usize)
        requires
            place < old(self)@.options.len(),
            old(self)@.tally(place as int) < u64::MAX,
        ensures
            final(self)@ == old(self)@.credit(place as int),
    {
        self.options[place].1 += 1;
        assert(self@.options =~= old(self)@.credit(place as int).options);
    }

    /// Takes one vote from the option at `place`.
    fn debit(&mut self, place: usize)
        requires
            place < old(self)@.options.len(),
            old(self)@.tally(place as int) >= 1,
        ensures
            final(self)@ == old(self)@.debit(place as int),
    {
        self.options[place].1 -= 1;
        assert(self@.options =~= old(self)@.debit(place as int).options);
    }
}

} // verus!
