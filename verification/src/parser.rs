pub mod combinator;
pub mod display;
pub mod header;
mod players;
pub mod session;

use vstd::prelude::*;

use self::combinator::{kill_at, KillMessage};
use self::header::{header_at, Header};
use self::players::Players;
use self::session::{intern, lemma_start_wf, Outcome, Session, UNEXPECTED_INPUT, WORLD};
use crate::cause_of_death::{CauseOfDeath, CAUSES_OF_DEATH};
use crate::error::{Error, ErrorView};
use crate::extra_checked_ops::ExtraCheckedOps;
use crate::instance_counter::InstanceCounter;
use crate::text::{lemma_run_end, scan_run, str_eq, str_to_chars, CharClass};

verus! {

/// Counts the deaths by each cause of death.
pub type CauseOfDeathCounter = InstanceCounter<CauseOfDeath, CAUSES_OF_DEATH>;

/// A parser for Quake 3 Arena logs.
///
/// It holds the tally of the current game, which [`LogParser::view`] gives
/// as a [`Session`], and takes the log line by line.
pub struct LogParser {
    /// The index of the current game.
    game_idx: u8,
    /// How many kills happened during this game,
    /// including the ones caused by `<world>`.
    total_kills: u32,
    /// Totals up how many deaths were caused by each
    /// cause of death.
    cause_of_death_counter: CauseOfDeathCounter,
    /// The players seen during this game, and the score of each player who
    /// has one.
    players: Players,
}

impl View for LogParser {
    type V = Session;

    /// The tally of the current game.
    closed spec fn view(&self) -> Session {
        Session {
            game_index: self.game_idx as nat,
            total_kills: self.total_kills as nat,
            kills_by_means: Seq::new(
                CAUSES_OF_DEATH as nat,
                |code: int| self.cause_of_death_counter@[code] as nat,
            ),
            players: self.players.names(),
            scores: self.players.scores(),
        }
    }
}

impl LogParser {
    /// The session of a parser is a well-formed one.
    proof fn lemma_wf(&self)
        requires
            self.players.inv(),
        ensures
            self@.wf(),
    {
        self.cause_of_death_counter.lemma_len();
        self.players.lemma_inv();
    }

    /// Build a new, empty `LogParser`.
    pub fn new() -> (parser: Self)
        ensures
            parser@ == Session::start(0),
            parser@.wf(),
    {
        let parser = Self {
            cause_of_death_counter: InstanceCounter::new(),
            players: Players::new(),
            game_idx: 0,
            total_kills: 0,
        };
        proof {
            assert(parser@.kills_by_means =~= Session::start(0).kills_by_means);
            lemma_start_wf(0);
        }
        parser
    }

    /// The index of the current game.
    pub fn game_index(&self) -> (index: u8)
        ensures
            index == self@.game_index,
    {
        self.game_idx
    }

    /// How many kills happened during this game,
    /// including the ones caused by `<world>`.
    pub fn total_kills(&self) -> (kills: u32)
        ensures
            kills == self@.total_kills,
    {
        self.total_kills
    }

    /// How many deaths each cause of death brought about during this game.
    pub fn cause_of_death_counter(&self) -> (counter: &CauseOfDeathCounter)
        ensures
            counter@.len() == CAUSES_OF_DEATH,
            forall|code: int|
                0 <= code < CAUSES_OF_DEATH ==> #[trigger] counter@[code]
                    == self@.kills_by_means[code],
    {
        proof {
            self.cause_of_death_counter.lemma_len();
        }
        &self.cause_of_death_counter
    }

    /// How many players were seen during this game.
    pub fn player_count(&self) -> (count: usize)
        ensures
            count == self@.players.len(),
    {
        self.players.len()
    }

    /// The name of the player who was the `index`-th to be seen, counting
    /// from zero, or `None` if fewer players were seen.
    pub fn player_name(&self, index: usize) -> (name: Option<&str>)
        ensures
            match name {
                Some(name) => index < self@.players.len() && name@ == self@.players[index as int],
                None => index >= self@.players.len(),
            },
    {
        if index < self.players.len() {
            Some(self.players.name(index))
        } else {
            None
        }
    }

    /// The place of the player called `name` among the players of this
    /// game, counting from zero, or `None` if no such player was seen. A
    /// player keeps the place for as long as the game lasts.
    pub fn player_id(&self, name: &str) -> (id: Option<usize>)
        ensures
            match id {
                Some(id) => id < self@.players.len() && self@.players[id as int] == name@,
                None => !self@.players.contains(name@),
            },
    {
        self.players.find(name)
    }

    /// The name of the player at `index`.
    pub(crate) fn name_at(&self, index: usize) -> (name: &str)
        requires
            index < self@.players.len(),
        ensures
            name@ == self@.players[index as int],
    {
        self.players.name(index)
    }

    /// The score of the player at `index`, which is zero as long as the
    /// player has none.
    pub(crate) fn score_at(&self, index: usize) -> (score: i32)
        requires
            index < self@.players.len(),
        ensures
            score == self@.score_of(self@.players[index as int]),
    {
        match self.players.score(index) {
            Some(score) => score,
            None => 0,
        }
    }

    /// The score of the player called `name`: `None` as long as the player
    /// has none, or was not seen at all.
    pub fn score(&self, name: &str) -> (score: Option<i32>)
        ensures
            match score {
                Some(score) => self@.scores.contains_key(name@) && self@.scores[name@] == score,
                None => !self@.scores.contains_key(name@),
            },
    {
        proof {
            use_type_invariant(&self.players);
            self.players.lemma_inv();
        }
        match self.players.find(name) {
            Some(id) => self.players.score(id),
            None => None,
        }
    }

    /// Parses a single line of a Quake 3 Arena log.
    ///
    /// If the line ends a game, the report of the game is returned, and the
    /// parser goes on with an empty tally for the next game. A line that is
    /// an error leaves the parser as it was.
    pub fn parse_line(&mut self, input: &str) -> (res: Result<Option<String>, Error>)
        ensures
            final(self)@.wf(),
            match res {
                Ok(Some(report)) => old(self)@.step(input@) == Ok::<_, ErrorView>(
                    Outcome { session: final(self)@, report: Some(report@) },
                ),
                Ok(None) => old(self)@.step(input@) == Ok::<_, ErrorView>(
                    Outcome { session: final(self)@, report: None },
                ),
                Err(error) => old(self)@.step(input@) == Err::<Outcome, _>(error@) && final(self)@
                    == old(self)@,
            },
    {
        proof {
            use_type_invariant(&self.players);
            self.lemma_wf();
        }
        let text = str_to_chars(input);
        let (rest, action) = match header_at(text.as_slice(), 0) {
            Ok(found) => found,
            Err(error) => {
                return Err(Error::ParsingError(error));
            },
        };
        match action {
            Header::Kill => match self.handle_kill(input, text.as_slice(), rest) {
                Ok(_) => Ok(None),
                Err(error) => Err(error),
            },
            Header::ShutdownGame => match self.handle_shutdown() {
                Ok(report) => Ok(Some(report)),
                Err(error) => Err(error),
            },
            _ => {
                // Not relevant for this application
                Ok(None)
            },
        }
    }

    /// Insert the given username into the parser's
    /// player buffer or return it if already inserted.
    fn intern_username(&mut self, username: &str) -> (id: usize)
        ensures
            final(self)@ == (Session {
                players: intern(old(self)@.players, username@),
                ..old(self)@
            }),
            id < final(self)@.players.len(),
            final(self)@.players[id as int] == username@,
    {
        self.players.intern(username)
    }

    /// Ends the current game: gives its report, and starts the next game.
    fn handle_shutdown(&mut self) -> (res: Result<String, Error>)
        ensures
            final(self)@.wf(),
            match res {
                Ok(report) => old(self)@.shutdown() == Ok::<_, ErrorView>(
                    Outcome { session: final(self)@, report: Some(report@) },
                ),
                Err(error) => old(self)@.shutdown() == Err::<Outcome, _>(error@) && final(self)@
                    == old(self)@,
            },
    {
        proof {
            use_type_invariant(&self.players);
            self.lemma_wf();
        }
        if self.game_idx == u8::MAX {
            return Err(Error::Overflow);
        }
        self.players.backfill();
        assert(self@.scores =~= old(self)@.backfilled().scores);
        let report = self.to_string();
        self.clear();
        Ok(report)
    }

    /// Starts the next game with an empty tally.
    fn clear(&mut self)
        requires
            old(self)@.game_index < u8::MAX,
        ensures
            final(self)@ == Session::start(old(self)@.game_index + 1),
            final(self)@.wf(),
    {
        // Get the game counter ready for the next game ..
        self.game_idx += 1;

        // .. and then reset all the rest
        self.players = Players::new();
        self.total_kills = 0;
        self.cause_of_death_counter = InstanceCounter::new();
        proof {
            assert(self@.kills_by_means =~= Session::start(
                old(self)@.game_index + 1,
            ).kills_by_means);
            use_type_invariant(&self.players);
            self.lemma_wf();
        }
    }

    /// Reads the kill that `input` describes from `from` on, and records
    /// it. `text` holds the characters of `input`.
    fn handle_kill(&mut self, input: &str, text: &[char], from: usize) -> (res: Result<(), Error>)
        requires
            text@ == input@,
            from <= text@.len(),
        ensures
            final(self)@.wf(),
            match res {
                Ok(_) => old(self)@.kill_line(input@, from as int) == Ok::<_, ErrorView>(
                    final(self)@,
                ),
                Err(error) => old(self)@.kill_line(input@, from as int) == Err::<Session, _>(
                    error@,
                ) && final(self)@ == old(self)@,
            },
    {
        proof {
            use_type_invariant(&self.players);
            self.lemma_wf();
        }
        let (rest, message) = match kill_at(input, text, from) {
            Ok(found) => found,
            Err(error) => {
                return Err(Error::ParsingError(error));
            },
        };
        proof {
            lemma_run_end(text@, CharClass::Blank, rest as int);
        }
        if scan_run(text, CharClass::Blank, rest) < text.len() {
            return Err(Error::Assertion(UNEXPECTED_INPUT));
        }
        self.record_kill(&message)
    }

    /// Records a kill: in the total, in the score of the attacker, or of the
    /// victim if the world killed, and in the count of its cause of death.
    fn record_kill(&mut self, message: &KillMessage) -> (res: Result<(), Error>)
        ensures
            final(self)@.wf(),
            match res {
                Ok(_) => old(self)@.record_kill(message@) == Ok::<_, ErrorView>(final(self)@),
                Err(error) => old(self)@.record_kill(message@) == Err::<Session, _>(error@)
                    && final(self)@ == old(self)@,
            },
    {
        proof {
            use_type_invariant(&self.players);
            self.lemma_wf();
            self.cause_of_death_counter.lemma_len();
        }
        let by_world = str_eq(message.attacker, WORLD);
        let scorer = if by_world {
            message.victim
        } else {
            message.attacker
        };

        let mut total_kills = self.total_kills;
        if let Err(error) = total_kills.checked_increment() {
            return Err(error);
        }
        let mut score = match self.score(scorer) {
            Some(score) => score,
            None => 0,
        };
        let stepped = if by_world {
            // Victim must get discounted one point
            score.checked_decrement()
        } else {
            score.checked_increment()
        };
        if let Err(error) = stepped {
            return Err(error);
        }
        if let Err(error) = self.cause_of_death_counter.add(message.cause_of_death) {
            return Err(error);
        }
        self.total_kills = total_kills;
        let victim = self.intern_username(message.victim);
        let scorer = if by_world {
            victim
        } else {
            self.intern_username(message.attacker)
        };
        self.players.set_score(scorer, score);
        proof {
            let before = old(self)@;
            let after = before.record_kill(message@)->Ok_0;
            assert(self@.kills_by_means =~= after.kills_by_means);
            assert(self@.players =~= after.players);
            use_type_invariant(&self.players);
            self.lemma_wf();
        }
        Ok(())
    }
}

} // verus!
