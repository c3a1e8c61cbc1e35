//! The players of a game: every name once, in the order of first sight,
//! and the scores.

use vstd::prelude::*;

use super::session::intern;
use crate::text::str_eq;

verus! {

/// A player: the name, and the score once there is one.
struct Player {
    name: String,
    score: Option<i32>,
}

/// The names of the players, in order.
spec fn names_of(players: Seq<Player>) -> Seq<Seq<char>> {
    Seq::new(players.len(), |i: int| players[i].name@)
}

/// Whether the player at `i` is called `name`.
spec fn named(players: Seq<Player>, i: int, name: Seq<char>) -> bool {
    0 <= i < players.len() && players[i].name@ == name
}

/// The scores that the players have, by name.
spec fn scores_of(players: Seq<Player>) -> Map<Seq<char>, int> {
    Map::new(
        |name: Seq<char>|
            exists|i: int| #[trigger] named(players, i, name) && players[i].score is Some,
        |name: Seq<char>|
            players[choose|i: int| #[trigger] named(players, i, name)].score.unwrap() as int,
    )
}

/// Among players with distinct names, a name belongs to one player only.
proof fn lemma_named_unique(players: Seq<Player>, i: int, j: int, name: Seq<char>)
    requires
        names_of(players).no_duplicates(),
        named(players, i, name),
        named(players, j, name),
    ensures
        i == j,
{
    assert(names_of(players)[i] == names_of(players)[j]);
}

/// The score of the player at `i`, as the score map gives it.
proof fn lemma_score_at(players: Seq<Player>, i: int)
    requires
        names_of(players).no_duplicates(),
        0 <= i < players.len(),
    ensures
        scores_of(players).contains_key(players[i].name@) == (players[i].score is Some),
        players[i].score is Some ==> scores_of(players)[players[i].name@]
            == players[i].score.unwrap(),
{
    let name = players[i].name@;
    assert(named(players, i, name));
    assert forall|j: int| named(players, j, name) implies j == i by {
        lemma_named_unique(players, i, j, name);
    }
}

/// The table of the players of a game. A player's place in it is the
/// player's identity: a name that was seen before is found again at the
/// place where it was first put.
pub(crate) struct Players {
    entries: Vec<Player>,
}

impl Players {
    /// The names of the players, in the order in which they were first
    /// seen.
    pub(crate) closed spec fn names(&self) -> Seq<Seq<char>> {
        names_of(self.entries@)
    }

    /// The score of each player who has one, by name.
    pub(crate) closed spec fn scores(&self) -> Map<Seq<char>, int> {
        scores_of(self.entries@)
    }

    /// No two players have the same name.
    #[verifier::type_invariant]
    pub(crate) closed spec fn inv(&self) -> bool {
        names_of(self.entries@).no_duplicates()
    }

    /// What holds of every table: no name stands in it twice, and only
    /// players in it have a score.
    pub(crate) open spec fn wf(&self) -> bool {
        &&& self.names().no_duplicates()
        &&& forall|name: Seq<char>| #[trigger]
            self.scores().contains_key(name) ==> self.names().contains(name) && i32::MIN
                <= self.scores()[name] <= i32::MAX
    }

    /// A table that upholds its invariant is well-formed.
    pub(crate) proof fn lemma_inv(&self)
        requires
            self.inv(),
        ensures
            self.wf(),
    {
        let players = self.entries@;
        assert forall|name: Seq<char>| #[trigger]
            self.scores().contains_key(name) implies self.names().contains(name) && i32::MIN
            <= self.scores()[name] <= i32::MAX by {
            let i = choose|i: int| #[trigger] named(players, i, name) && players[i].score is Some;
            assert(names_of(players)[i] == name);
            lemma_score_at(players, i);
        }
    }

    /// A table without players.
    pub(crate) fn new() -> (players: Self)
        ensures
            players.names() == Seq::<Seq<char>>::empty(),
            players.scores() == Map::<Seq<char>, int>::empty(),
    {
        let players = Players { entries: Vec::new() };
        assert(players.names() =~= Seq::<Seq<char>>::empty());
        assert(players.scores() =~= Map::<Seq<char>, int>::empty());
        players
    }

    /// How many players there are.
    pub(crate) fn len(&self) -> (count: usize)
        ensures
            count == self.names().len(),
    {
        self.entries.len()
    }

    /// The name of the player at `id`.
    pub(crate) fn name(&self, id: usize) -> (name: &str)
        requires
            id < self.names().len(),
        ensures
            name@ == self.names()[id as int],
    {
        self.entries[id].name.as_str()
    }

    /// The score of the player at `id`: `None` as long as the player has
    /// none.
    pub(crate) fn score(&self, id: usize) -> (score: Option<i32>)
        requires
            id < self.names().len(),
        ensures
            match score {
                Some(score) => self.scores().contains_key(self.names()[id as int])
                    && self.scores()[self.names()[id as int]] == score,
                None => !self.scores().contains_key(self.names()[id as int]),
            },
    {
        proof {
            use_type_invariant(self);
            lemma_score_at(self.entries@, id as int);
        }
        self.entries[id].score
    }

    /// Where the player called `name` stands.
    pub(crate) fn find(&self, name: &str) -> (found: Option<usize>)
        ensures
            match found {
                Some(id) => id < self.names().len() && self.names()[id as int] == name@,
                None => !self.names().contains(name@),
            },
    {
        let mut id: usize = 0;
        while id < self.entries.len()
            invariant
                0 <= id <= self.entries@.len(),
                forall|i: int| 0 <= i < id ==> self.entries@[i].name@ != name@,
            decreases self.entries@.len() - id,
        {
            if str_eq(self.entries[id].name.as_str(), name) {
                return Some(id);
            }
            id += 1;
        }
        None
    }

    /// Where the player called `name` stands, after putting the player at
    /// the end, without a score, if the name was not there yet.
    pub(crate) fn intern(&mut self, name: &str) -> (id: usize)
        ensures
            final(self).names() == intern(old(self).names(), name@),
            final(self).scores() == old(self).scores(),
            id < final(self).names().len(),
            final(self).names()[id as int] == name@,
    {
        proof {
            use_type_invariant(&*self);
        }
        match self.find(name) {
            Some(id) => id,
            None => {
                let id = self.entries.len();
                let mut entries = Vec::new();
                std::mem::swap(&mut self.entries, &mut entries);
                entries.push(Player { name: name.to_owned(), score: None });
                proof {
                    let before = old(self).entries@;
                    let after = entries@;
                    assert(names_of(after) =~= names_of(before).push(name@));
                    assert forall|i: int, other: Seq<char>|
                        named(before, i, other) implies named(after, i, other) by {}
                    assert forall|i: int, other: Seq<char>|
                        named(after, i, other) && after[i].score is Some implies named(
                        before,
                        i,
                        other,
                    ) by {}
                    assert forall|other: Seq<char>| #[trigger]
                        scores_of(after).contains_key(other) implies scores_of(before).contains_key(
                        other,
                    ) && scores_of(after)[other] == scores_of(before)[other] by {
                        let i = choose|i: int| #[trigger]
                            named(after, i, other) && after[i].score is Some;
                        assert(named(before, i, other));
                        let a = choose|i: int| #[trigger] named(after, i, other);
                        let b = choose|i: int| #[trigger] named(before, i, other);
                        lemma_named_unique(after, a, i, other);
                        lemma_named_unique(before, b, i, other);
                    }
                    assert forall|other: Seq<char>| #[trigger]
                        scores_of(before).contains_key(other) implies scores_of(after).contains_key(
                        other,
                    ) by {
                        let i = choose|i: int| #[trigger]
                            named(before, i, other) && before[i].score is Some;
                        assert(named(after, i, other));
                    }
                    assert(scores_of(after) =~= scores_of(before));
                }
                std::mem::swap(&mut self.entries, &mut entries);
                id
            },
        }
    }

    /// Gives the player at `id` the score `score`.
    pub(crate) fn set_score(&mut self, id: usize, score: i32)
        requires
            id < old(self).names().len(),
        ensures
            final(self).names() == old(self).names(),
            final(self).scores() == old(self).scores().insert(
                old(self).names()[id as int],
                score as int,
            ),
    {
        proof {
            use_type_invariant(&*self);
        }
        let mut entries = Vec::new();
        std::mem::swap(&mut self.entries, &mut entries);
        entries[id].score = Some(score);
        proof {
            let before = old(self).entries@;
            let after = entries@;
            let name = before[id as int].name@;
            assert(names_of(after) =~= names_of(before));
            assert forall|i: int, other: Seq<char>|
                named(before, i, other) == named(after, i, other) by {}
            lemma_score_at(after, id as int);
            assert forall|other: Seq<char>| other != name implies scores_of(after).contains_key(
                other,
            ) == scores_of(before).contains_key(other) && (scores_of(before).contains_key(other)
                ==> scores_of(after)[other] == scores_of(before)[other]) by {
                if scores_of(before).contains_key(other) {
                    let i = choose|i: int| #[trigger]
                        named(before, i, other) && before[i].score is Some;
                    assert(named(after, i, other) && after[i].score is Some);
                    lemma_score_at(before, i);
                    lemma_score_at(after, i);
                }
                if scores_of(after).contains_key(other) {
                    let i = choose|i: int| #[trigger]
                        named(after, i, other) && after[i].score is Some;
                    assert(named(before, i, other) && before[i].score is Some);
                }
            }
            assert(scores_of(after) =~= scores_of(before).insert(name, score as int));
        }
        std::mem::swap(&mut self.entries, &mut entries);
    }

    /// Gives every player who has no score the score zero.
    pub(crate) fn backfill(&mut self)
        ensures
            final(self).names() == old(self).names(),
            final(self).scores() == Map::new(
                |name: Seq<char>| old(self).names().contains(name),
                |name: Seq<char>|
                    if old(self).scores().contains_key(name) {
                        old(self).scores()[name]
                    } else {
                        0
                    },
            ),
    {
        proof {
            use_type_invariant(&*self);
        }
        let mut entries = Vec::new();
        std::mem::swap(&mut self.entries, &mut entries);
        let ghost before = entries@;
        let mut id: usize = 0;
        while id < entries.len()
            invariant
                0 <= id <= entries@.len() == before.len(),
                forall|i: int| 0 <= i < before.len() ==> entries@[i].name@ == before[i].name@,
                forall|i: int|
                    0 <= i < id ==> entries@[i].score == Some(
                        match before[i].score {
                            Some(score) => score,
                            None => 0i32,
                        },
                    ),
                forall|i: int| id <= i < before.len() ==> entries@[i].score == before[i].score,
            decreases entries@.len() - id,
        {
            if entries[id].score.is_none() {
                entries[id].score = Some(0);
            }
            id += 1;
        }
        proof {
            let after = entries@;
            let filled = Map::new(
                |name: Seq<char>| old(self).names().contains(name),
                |name: Seq<char>|
                    if old(self).scores().contains_key(name) {
                        old(self).scores()[name]
                    } else {
                        0
                    },
            );
            assert(names_of(after) =~= names_of(before));
            assert forall|name: Seq<char>| #[trigger]
                filled.contains_key(name) implies scores_of(after).contains_key(name)
                && scores_of(after)[name] == filled[name] by {
                let i = choose|i: int| 0 <= i < before.len() && names_of(before)[i] == name;
                assert(named(after, i, name));
                lemma_score_at(after, i);
                lemma_score_at(before, i);
            }
            assert forall|name: Seq<char>| #[trigger]
                scores_of(after).contains_key(name) implies filled.contains_key(name) by {
                let i = choose|i: int| #[trigger] named(after, i, name) && after[i].score is Some;
                assert(names_of(before)[i] == name);
            }
            assert(scores_of(after) =~= filled);
        }
        std::mem::swap(&mut self.entries, &mut entries);
    }
}

} // verus!
