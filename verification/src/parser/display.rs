//! The report of a game, as text.

use vstd::prelude::*;

use vstd::string::StringExecFns;

use super::session::Session;
use super::LogParser;
use crate::cause_of_death::{lemma_code_injective, CauseOfDeath, CAUSES_OF_DEATH};

verus! {

/// The decimal digit `d`, as text.
pub open spec fn digit(d: nat) -> Seq<char> {
    if d == 0 {
        "0"@
    } else if d == 1 {
        "1"@
    } else if d == 2 {
        "2"@
    } else if d == 3 {
        "3"@
    } else if d == 4 {
        "4"@
    } else if d == 5 {
        "5"@
    } else if d == 6 {
        "6"@
    } else if d == 7 {
        "7"@
    } else if d == 8 {
        "8"@
    } else {
        "9"@
    }
}

/// The decimal notation of `n`, without leading zeros.
pub open spec fn decimal(n: nat) -> Seq<char>
    decreases n,
{
    if n < 10 {
        digit(n)
    } else {
        decimal(n / 10) + digit(n % 10)
    }
}

/// The decimal notation of `i`, with a minus sign if it is negative.
pub open spec fn signed_decimal(i: int) -> Seq<char> {
    if i < 0 {
        "-"@ + decimal((-i) as nat)
    } else {
        decimal(i as nat)
    }
}

/// The cause of death with the given code. For a code that no cause has the
/// result is arbitrary.
pub open spec fn cause_at(code: int) -> CauseOfDeath {
    CauseOfDeath::from_code(code as u8).unwrap()
}

impl Session {
    /// The first `n` players, each between double quotes, with a comma and
    /// a space between one and the next.
    pub open spec fn players_text(self, n: nat) -> Seq<char>
        decreases n,
    {
        if n == 0 {
            Seq::empty()
        } else {
            self.players_text((n - 1) as nat) + (if n == 1 {
                ""@
            } else {
                ", "@
            }) + "\""@ + self.players[n - 1] + "\""@
        }
    }

    /// The line of the report that gives the score of the player at `index`;
    /// a comma ends it unless the player is the last.
    pub open spec fn score_line(self, index: int) -> Seq<char> {
        "\t\t\""@ + self.players[index] + "\": "@ + signed_decimal(
            self.score_of(self.players[index]),
        ) + (if index + 1 == self.players.len() {
            "\n"@
        } else {
            ",\n"@
        })
    }

    /// The score lines of the first `n` players.
    pub open spec fn scores_text(self, n: nat) -> Seq<char>
        decreases n,
    {
        if n == 0 {
            Seq::empty()
        } else {
            self.scores_text((n - 1) as nat) + self.score_line(n - 1)
        }
    }

    /// The line of the report that gives the deaths by the cause with the
    /// given code; a comma ends it unless the cause is the last.
    pub open spec fn means_line(self, code: int) -> Seq<char> {
        "\t\t\""@ + cause_at(code).wire() + "\": "@ + decimal(self.kills_by_means[code]) + (if code
            + 1 == CAUSES_OF_DEATH {
            "\n"@
        } else {
            ",\n"@
        })
    }

    /// The lines of the causes of death with a code below `n`.
    pub open spec fn means_text(self, n: nat) -> Seq<char>
        decreases n,
    {
        if n == 0 {
            Seq::empty()
        } else {
            self.means_text((n - 1) as nat) + self.means_line(n - 1)
        }
    }

    /// The report of the game: its index, the total of kills, the players in
    /// the order in which they were first seen, the score of every player,
    /// zero where a player has none, and the deaths by each cause of death,
    /// zero included.
    pub open spec fn report(self) -> Seq<char> {
        "\"game"@ + decimal(self.game_index) + "\": {\n"@
            + "\t\"total_kills\": "@ + decimal(self.total_kills) + ",\n"@
            + "\t\"players\": ["@ + self.players_text(self.players.len()) + "],\n"@
            + "\t\"kills\": {\n"@ + self.scores_text(self.players.len()) + "\t},\n"@
            + "\t\"kills_by_means\": {\n"@ + self.means_text(CAUSES_OF_DEATH as nat) + "\t}\n"@
            + "}"@
    }
}

/// The decimal digit `d`, as text.
fn digit_str(d: u8) -> (text: &'static str)
    requires
        d < 10,
    ensures
        text@ == digit(d as nat),
{
    match d {
        0 => "0",
        1 => "1",
        2 => "2",
        3 => "3",
        4 => "4",
        5 => "5",
        6 => "6",
        7 => "7",
        8 => "8",
        _ => "9",
    }
}

/// Writes the decimal notation of `n` at the end of `out`.
fn write_decimal(out: &mut String, n: u32)
    ensures
        final(out)@ == old(out)@ + decimal(n as nat),
    decreases n,
{
    if n >= 10 {
        write_decimal(out, n / 10);
    }
    out.append(digit_str((n % 10) as u8));
    assert(final(out)@ =~= old(out)@ + decimal(n as nat));
}

/// Writes the decimal notation of `i` at the end of `out`.
fn write_signed_decimal(out: &mut String, i: i32)
    ensures
        final(out)@ == old(out)@ + signed_decimal(i as int),
{
    if i < 0 {
        out.append("-");
        let magnitude: i64 = -(i as i64);
        write_decimal(out, magnitude as u32);
        assert(out@ =~= old(out)@ + signed_decimal(i as int));
    } else {
        write_decimal(out, i as u32);
    }
}

impl LogParser {
    /// The report of the current game, as the `"game<index>"` member of a
    /// JSON object: the total of kills, the players in the order in which
    /// they were first seen, the score of every player, and the deaths by
    /// each cause of death.
    pub fn to_string(&self) -> (report: String)
        ensures
            report@ == self@.report(),
    {
        let mut out = String::new();
        out.append("\"game");
        write_decimal(&mut out, self.game_index() as u32);
        out.append("\": {\n");
        out.append("\t\"total_kills\": ");
        write_decimal(&mut out, self.total_kills());
        out.append(",\n");
        out.append("\t\"players\": [");
        self.write_players(&mut out);
        out.append("],\n");
        out.append("\t\"kills\": {\n");
        self.write_score(&mut out);
        out.append("\t},\n");
        out.append("\t\"kills_by_means\": {\n");
        self.write_means_of_death(&mut out);
        out.append("\t}\n");
        out.append("}");
        assert(out@ =~= self@.report());
        out
    }

    /// Writes the names of the players at the end of `out`.
    fn write_players(&self, out: &mut String)
        ensures
            final(out)@ == old(out)@ + self@.players_text(self@.players.len()),
    {
        let count = self.player_count();
        let mut index: usize = 0;
        while index < count
            invariant
                0 <= index <= count == self@.players.len(),
                out@ == old(out)@ + self@.players_text(index as nat),
            decreases count - index,
        {
            out.append(if index == 0 {
                ""
            } else {
                ", "
            });
            out.append("\"");
            out.append(self.name_at(index));
            out.append("\"");
            index += 1;
            assert(out@ =~= old(out)@ + self@.players_text(index as nat));
        }
    }

    /// Writes the score lines of the players at the end of `out`.
    fn write_score(&self, out: &mut String)
        ensures
            final(out)@ == old(out)@ + self@.scores_text(self@.players.len()),
    {
        let count = self.player_count();
        let mut index: usize = 0;
        while index < count
            invariant
                0 <= index <= count == self@.players.len(),
                out@ == old(out)@ + self@.scores_text(index as nat),
            decreases count - index,
        {
            out.append("\t\t\"");
            out.append(self.name_at(index));
            out.append("\": ");
            write_signed_decimal(out, self.score_at(index));
            out.append(if index + 1 == count {
                "\n"
            } else {
                ",\n"
            });
            index += 1;
            assert(out@ =~= old(out)@ + self@.scores_text(index as nat));
        }
    }

    /// Writes the lines of the causes of death at the end of `out`.
    fn write_means_of_death(&self, out: &mut String)
        ensures
            final(out)@ == old(out)@ + self@.means_text(CAUSES_OF_DEATH as nat),
    {
        let causes = CauseOfDeath::all();
        let counter = self.cause_of_death_counter();
        let mut code: usize = 0;
        while code < CAUSES_OF_DEATH
            invariant
                0 <= code <= CAUSES_OF_DEATH,
                out@ == old(out)@ + self@.means_text(code as nat),
                causes@.len() == CAUSES_OF_DEATH,
                forall|i: int| 0 <= i < CAUSES_OF_DEATH ==> (#[trigger] causes@[i]).code() == i,
                counter@.len() == CAUSES_OF_DEATH,
                forall|i: int|
                    0 <= i < CAUSES_OF_DEATH ==> #[trigger] counter@[i]
                        == self@.kills_by_means[i],
            decreases CAUSES_OF_DEATH - code,
        {
            let cause_of_death = causes[code];
            let incidence = match counter.get(cause_of_death) {
                Some(incidence) => incidence,
                None => 0,
            };
            proof {
                lemma_code_injective();
                assert(cause_of_death.code() == code);
                assert(cause_at(code as int) == cause_of_death);
            }
            out.append("\t\t\"");
            out.append(cause_of_death.as_str());
            out.append("\": ");
            write_decimal(out, incidence as u32);
            out.append(if code + 1 == CAUSES_OF_DEATH {
                "\n"
            } else {
                ",\n"
            });
            code += 1;
            assert(out@ =~= old(out)@ + self@.means_text(code as nat));
        }
    }
}

} // verus!
