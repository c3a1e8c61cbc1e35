//! The session as a mathematical state machine: what a game's tally holds,
//! and what each line of the log does to it.

use vstd::prelude::*;

use super::combinator::{kill, KillEvent};
use super::header::{header, Header};
use crate::cause_of_death::{
    lemma_code_injective, lemma_code_written_then_read, CauseOfDeath, CAUSES_OF_DEATH,
};
use crate::error::ErrorView;
use crate::text::{all_in, CharClass};

verus! {

/// The name under which the log reports deaths that no player caused.
pub const WORLD: &'static str = "<world>";

/// The message of the error for a kill line that goes on after its cause of
/// death with anything but blanks.
pub const UNEXPECTED_INPUT: &'static str = "Line contained unexpected input";

/// The tally of one game.
pub struct Session {
    /// How many games ended before this one.
    pub game_index: nat,
    /// How many kills happened during this game, including the ones caused
    /// by `<world>`.
    pub total_kills: nat,
    /// How many deaths each cause of death brought about, by the code of the
    /// cause.
    pub kills_by_means: Seq<nat>,
    /// The players seen in this game, each once, in the order in which they
    /// were first seen.
    pub players: Seq<Seq<char>>,
    /// The score of each player who has one: those who killed someone, and
    /// those whom the world killed.
    pub scores: Map<Seq<char>, int>,
}

/// What a line leaves behind: the session after it, and the report of the
/// game if the line ended one.
pub struct Outcome {
    pub session: Session,
    pub report: Option<Seq<char>>,
}

/// The players after `name` was seen: it joins at the end unless it is there
/// already.
pub open spec fn intern(players: Seq<Seq<char>>, name: Seq<char>) -> Seq<Seq<char>> {
    if players.contains(name) {
        players
    } else {
        players.push(name)
    }
}

impl Session {
    /// The session at the start of the game with the given index: no kills,
    /// no players, no scores.
    pub open spec fn start(game_index: nat) -> Session {
        Session {
            game_index,
            total_kills: 0,
            kills_by_means: Seq::new(CAUSES_OF_DEATH as nat, |i: int| 0nat),
            players: Seq::empty(),
            scores: Map::empty(),
        }
    }

    /// What holds of every session: there is one count for each cause of
    /// death, no player is listed twice, only listed players have a score,
    /// and every number is in the range of its counter.
    pub open spec fn wf(self) -> bool {
        &&& self.game_index <= u8::MAX
        &&& self.total_kills <= u32::MAX
        &&& self.kills_by_means.len() == CAUSES_OF_DEATH
        &&& forall|code: int|
            0 <= code < CAUSES_OF_DEATH ==> #[trigger] self.kills_by_means[code] <= u8::MAX
        &&& self.players.no_duplicates()
        &&& forall|name: Seq<char>| #[trigger]
            self.scores.contains_key(name) ==> self.players.contains(name) && i32::MIN
                <= self.scores[name] <= i32::MAX
    }

    /// The score of a player, which is zero as long as the player has none.
    pub open spec fn score_of(self, name: Seq<char>) -> int {
        if self.scores.contains_key(name) {
            self.scores[name]
        } else {
            0
        }
    }

    /// How many deaths `cause` brought about.
    pub open spec fn kills_by(self, cause: CauseOfDeath) -> nat {
        self.kills_by_means[cause.code() as int]
    }

    /// The player whose score a kill changes: the victim if the world
    /// killed, the attacker otherwise.
    pub open spec fn scorer(event: KillEvent) -> Seq<char> {
        if event.attacker == WORLD@ {
            event.victim
        } else {
            event.attacker
        }
    }

    /// The score of [`Session::scorer`] after the kill: one point less for
    /// a death by the world, one point more for a kill.
    pub open spec fn new_score(self, event: KillEvent) -> int {
        if event.attacker == WORLD@ {
            self.score_of(event.victim) - 1
        } else {
            self.score_of(event.attacker) + 1
        }
    }

    /// The session after a kill. The victim is listed, and after it the
    /// attacker unless that is the world; the scorer's score changes by one;
    /// the kill counts towards the total and towards its cause. Where one of
    /// the three counters would leave its range, nothing changes and the kill
    /// is an error: of the total first, then of the score, then of the cause.
    pub open spec fn record_kill(self, event: KillEvent) -> Result<Session, ErrorView> {
        let code = event.cause.code() as int;
        if self.total_kills >= u32::MAX {
            Err(ErrorView::Overflow)
        } else if self.new_score(event) < i32::MIN {
            Err(ErrorView::Underflow)
        } else if self.new_score(event) > i32::MAX {
            Err(ErrorView::Overflow)
        } else if self.kills_by_means[code] >= u8::MAX {
            Err(ErrorView::Overflow)
        } else {
            Ok(
                Session {
                    game_index: self.game_index,
                    total_kills: self.total_kills + 1,
                    kills_by_means: self.kills_by_means.update(
                        code,
                        self.kills_by_means[code] + 1,
                    ),
                    players: intern(intern(self.players, event.victim), Self::scorer(event)),
                    scores: self.scores.insert(Self::scorer(event), self.new_score(event)),
                },
            )
        }
    }

    /// The session with a score for every player: zero for those who had
    /// none.
    pub open spec fn backfilled(self) -> Session {
        Session {
            scores: Map::new(
                |name: Seq<char>| self.players.contains(name),
                |name: Seq<char>| self.score_of(name),
            ),
            ..self
        }
    }

    /// The end of a game: the report of the session, with a score for every
    /// player, and a new session for the next game. Where the index of the
    /// next game would leave its range, the shutdown is an error.
    pub open spec fn shutdown(self) -> Result<Outcome, ErrorView> {
        if self.game_index >= u8::MAX {
            Err(ErrorView::Overflow)
        } else {
            Ok(
                Outcome {
                    session: Session::start(self.game_index + 1),
                    report: Some(self.backfilled().report()),
                },
            )
        }
    }

    /// The session after the kill line whose header ends at `from`. The
    /// line must go on with the three numbers and the kill message, and with
    /// nothing but blanks after the cause of death; the kill is then
    /// recorded.
    pub open spec fn kill_line(self, line: Seq<char>, from: int) -> Result<Session, ErrorView> {
        match kill(line, from) {
            Ok((end, event)) => if all_in(line, CharClass::Blank, end) {
                self.record_kill(event)
            } else {
                Err(ErrorView::Assertion(UNEXPECTED_INPUT@))
            },
            Err(mismatch) => Err(ErrorView::ParsingError(mismatch)),
        }
    }

    /// What one line of the log does to the session.
    ///
    /// The line must have a header. A kill line is read and recorded, a
    /// shutdown line ends the game, and every other line leaves the session
    /// as it is. A line that is an error changes nothing.
    pub open spec fn step(self, line: Seq<char>) -> Result<Outcome, ErrorView> {
        match header(line, 0) {
            Ok((rest, Header::Kill)) => match self.kill_line(line, rest) {
                Ok(session) => Ok(Outcome { session, report: None }),
                Err(error) => Err(error),
            },
            Ok((_, Header::ShutdownGame)) => self.shutdown(),
            Ok(_) => Ok(Outcome { session: self, report: None }),
            Err(mismatch) => Err(ErrorView::ParsingError(mismatch)),
        }
    }
}

/// Seeing a name keeps the players distinct and in their order, and the
/// name is among them afterwards.
pub proof fn lemma_intern(players: Seq<Seq<char>>, name: Seq<char>)
    requires
        players.no_duplicates(),
    ensures
        intern(players, name).no_duplicates(),
        intern(players, name).contains(name),
        players.is_prefix_of(intern(players, name)),
        forall|other: Seq<char>| players.contains(other) ==> intern(players, name).contains(other),
        intern(intern(players, name), name) == intern(players, name),
{
    let after = intern(players, name);
    if !players.contains(name) {
        assert(after[players.len() as int] == name);
        assert forall|other: Seq<char>| players.contains(other) implies after.contains(other) by {
            let i = choose|i: int| 0 <= i < players.len() && players[i] == other;
            assert(after[i] == other);
        }
    }
}

/// A game starts with a well-formed session.
pub proof fn lemma_start_wf(game_index: nat)
    requires
        game_index <= u8::MAX,
    ensures
        Session::start(game_index).wf(),
{
}

/// A kill that is recorded leaves a well-formed session. The total has
/// grown by one, and the players who were listed stand where they stood:
/// new ones join behind them.
pub proof fn lemma_record_kill_wf(session: Session, event: KillEvent)
    requires
        session.wf(),
    ensures
        session.record_kill(event) matches Ok(next) ==> {
            &&& next.wf()
            &&& next.total_kills == session.total_kills + 1
            &&& next.game_index == session.game_index
            &&& session.players.is_prefix_of(next.players)
            &&& next.players.contains(event.victim)
        },
{
    if let Ok(next) = session.record_kill(event) {
        let listed = intern(session.players, event.victim);
        lemma_intern(session.players, event.victim);
        lemma_intern(listed, Session::scorer(event));
        lemma_code_written_then_read(event.cause);
        assert forall|name: Seq<char>| #[trigger]
            next.scores.contains_key(name) implies next.players.contains(name) && i32::MIN
            <= next.scores[name] <= i32::MAX by {
            if name != Session::scorer(event) {
                assert(session.scores.contains_key(name));
            }
        }
    }
}

/// Whatever a line does to a well-formed session, the session that it
/// leaves is well-formed: among other things, no player is listed twice.
/// The index of the game never goes down: it grows by one with a report,
/// and stays as it is without one.
pub proof fn lemma_step_wf(session: Session, line: Seq<char>)
    requires
        session.wf(),
    ensures
        session.step(line) matches Ok(outcome) ==> {
            &&& outcome.session.wf()
            &&& outcome.report.is_some() <==> (header(line, 0) matches Ok(
                (_, Header::ShutdownGame),
            ))
            &&& outcome.session.game_index == if outcome.report.is_some() {
                session.game_index + 1
            } else {
                session.game_index
            }
        },
{
    match header(line, 0) {
        Ok((rest, Header::Kill)) => {
            if let Ok((_, event)) = kill(line, rest) {
                lemma_record_kill_wf(session, event);
            }
        },
        _ => {},
    }
}

/// Giving the players without a score the score zero leaves every other
/// score, the players and the counts as they are, and afterwards exactly the
/// players have a score.
pub proof fn lemma_backfilled(session: Session)
    requires
        session.wf(),
    ensures
        session.backfilled().wf(),
        forall|name: Seq<char>|
            session.backfilled().scores.contains_key(name) <==> session.players.contains(name),
        forall|name: Seq<char>| session.backfilled().score_of(name) == session.score_of(name),
        session.backfilled().backfilled() == session.backfilled(),
{
    let filled = session.backfilled();
    assert(filled.backfilled().scores =~= filled.scores);
}

/// Only kill lines and shutdown lines change the session, and only a
/// shutdown line gives a report.
pub proof fn lemma_other_lines(session: Session, line: Seq<char>)
    requires
        header(line, 0) matches Ok((_, found)) && found != Header::Kill && found
            != Header::ShutdownGame,
    ensures
        session.step(line) == Ok::<_, ErrorView>(Outcome { session, report: None }),
{
}

/// A death by the world takes a point from the victim, who is listed if
/// that was not so before, and counts towards the total and its cause.
/// No other score and no other count changes.
pub proof fn lemma_world_kill(session: Session, victim: Seq<char>, cause: CauseOfDeath)
    requires
        session.wf(),
        session.record_kill(KillEvent { attacker: WORLD@, victim, cause }).is_ok(),
    ensures
        ({
            let next = session.record_kill(KillEvent { attacker: WORLD@, victim, cause })->Ok_0;
            &&& next.scores.contains_key(victim)
            &&& next.scores[victim] == session.score_of(victim) - 1
            &&& forall|other: Seq<char>|
                other != victim ==> next.scores.contains_key(other) == session.scores.contains_key(
                    other,
                ) && next.score_of(other) == session.score_of(other)
            &&& next.kills_by(cause) == session.kills_by(cause) + 1
            &&& forall|other: CauseOfDeath|
                other != cause ==> next.kills_by(other) == session.kills_by(other)
            &&& next.total_kills == session.total_kills + 1
            &&& next.players == intern(session.players, victim)
            &&& next.game_index == session.game_index
        }),
{
    lemma_intern(session.players, victim);
    lemma_code_injective();
    lemma_code_written_then_read(cause);
    assert forall|other: CauseOfDeath| other.code() < CAUSES_OF_DEATH by {
        lemma_code_written_then_read(other);
    }
}

/// A kill by a player gives the attacker a point and counts towards the
/// total and its cause. The victim is listed, then the attacker, each if
/// that was not so before; the victim gets no score from it. No other
/// score and no other count changes.
pub proof fn lemma_player_kill(session: Session, event: KillEvent)
    requires
        session.wf(),
        event.attacker != WORLD@,
        session.record_kill(event).is_ok(),
    ensures
        ({
            let next = session.record_kill(event)->Ok_0;
            &&& next.scores.contains_key(event.attacker)
            &&& next.scores[event.attacker] == session.score_of(event.attacker) + 1
            &&& forall|other: Seq<char>|
                other != event.attacker ==> next.scores.contains_key(other)
                    == session.scores.contains_key(other) && next.score_of(other)
                    == session.score_of(other)
            &&& next.kills_by(event.cause) == session.kills_by(event.cause) + 1
            &&& forall|other: CauseOfDeath|
                other != event.cause ==> next.kills_by(other) == session.kills_by(other)
            &&& next.total_kills == session.total_kills + 1
            &&& next.players == intern(intern(session.players, event.victim), event.attacker)
            &&& next.game_index == session.game_index
        }),
{
    lemma_code_injective();
    lemma_code_written_then_read(event.cause);
    assert forall|other: CauseOfDeath| other.code() < CAUSES_OF_DEATH by {
        lemma_code_written_then_read(other);
    }
}

/// The first kill of a game, before which nothing was counted: whatever
/// the games before held, the tally holds this kill and nothing else.
pub proof fn lemma_first_kill(game_index: nat, event: KillEvent)
    requires
        game_index <= u8::MAX,
    ensures
        Session::start(game_index).record_kill(event) matches Ok(next) && {
            &&& next.game_index == game_index
            &&& next.total_kills == 1
            &&& next.kills_by(event.cause) == 1
            &&& forall|other: CauseOfDeath| other != event.cause ==> next.kills_by(other) == 0
            &&& next.players == if Session::scorer(event) == event.victim {
                seq![event.victim]
            } else {
                seq![event.victim, event.attacker]
            }
            &&& next.scores == if event.attacker == WORLD@ {
                map![event.victim => -1int]
            } else {
                map![event.attacker => 1int]
            }
        },
{
    let start = Session::start(game_index);
    let next = start.record_kill(event)->Ok_0;
    lemma_code_injective();
    lemma_code_written_then_read(event.cause);
    assert forall|other: CauseOfDeath| other.code() < CAUSES_OF_DEATH by {
        lemma_code_written_then_read(other);
    }
    let listed = intern(start.players, event.victim);
    assert(!start.players.contains(event.victim));
    assert(listed =~= seq![event.victim]);
    assert(listed[0] == event.victim);
    if Session::scorer(event) != event.victim {
        assert forall|i: int| 0 <= i < listed.len() implies listed[i] != event.attacker by {}
        assert(next.players =~= seq![event.victim, event.attacker]);
    }
    if event.attacker == WORLD@ {
        assert(next.scores =~= map![event.victim => -1int]);
    } else {
        assert(next.scores =~= map![event.attacker => 1int]);
    }
}

/// The report is the same whether or not the players without a score were
/// given the score zero before: it shows a score for every player either way.
pub proof fn lemma_report_backfilled(session: Session)
    ensures
        session.backfilled().report() == session.report(),
{
    lemma_texts_backfilled(session, session.players.len());
    lemma_means_backfilled(session, CAUSES_OF_DEATH as nat);
}

/// The first `n` players and their score lines do not change when the
/// players without a score are given the score zero.
proof fn lemma_texts_backfilled(session: Session, n: nat)
    requires
        n <= session.players.len(),
    ensures
        session.backfilled().players_text(n) == session.players_text(n),
        session.backfilled().scores_text(n) == session.scores_text(n),
    decreases n,
{
    if n > 0 {
        lemma_texts_backfilled(session, (n - 1) as nat);
        assert(session.players.contains(session.players[n - 1]));
    }
}

/// The lines of the causes of death do not change when the players without
/// a score are given the score zero.
proof fn lemma_means_backfilled(session: Session, n: nat)
    ensures
        session.backfilled().means_text(n) == session.means_text(n),
    decreases n,
{
    if n > 0 {
        lemma_means_backfilled(session, (n - 1) as nat);
    }
}

/// A shutdown line ends the game: it gives the report of the session as it
/// was, the index of the game grows by one, and every count and every list
/// starts empty again, so that the next line meets the same session
/// whatever this game held.
pub proof fn lemma_shutdown(session: Session, line: Seq<char>)
    requires
        session.wf(),
        session.game_index < u8::MAX,
        header(line, 0) matches Ok((_, Header::ShutdownGame)),
    ensures
        session.step(line) matches Ok(outcome) && {
            &&& outcome.report == Some(session.report())
            &&& outcome.session == Session::start(session.game_index + 1)
            &&& outcome.session.game_index == session.game_index + 1
            &&& outcome.session.total_kills == 0
            &&& outcome.session.players.len() == 0
            &&& outcome.session.scores == Map::<Seq<char>, int>::empty()
            &&& forall|cause: CauseOfDeath| outcome.session.kills_by(cause) == 0
        },
{
    lemma_report_backfilled(session);
    assert forall|cause: CauseOfDeath| cause.code() < CAUSES_OF_DEATH by {
        lemma_code_written_then_read(cause);
    }
}

} // verus!
