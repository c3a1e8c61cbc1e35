//! The grammar of a log line below its header: blanks, numbers, timestamps,
//! the spacer line and the kill message.
//!
//! Every rule is a spec function from a text and a starting position to
//! either the position where the match ends together with what was matched,
//! or the position where the text stopped matching together with what was
//! expected there. The executable parsers compute exactly these functions.

use vstd::prelude::*;

use crate::cause_of_death::CauseOfDeath;
use crate::error::{Expected, Mismatch, ParseError};
use crate::text::{
    find, first_occurrence, lemma_first_occurrence, lemma_run_end, lemma_run_end_unique,
    occurs_at, run_end, scan_run, str_to_chars, CharClass,
};

verus! {

/// What separates the attacker's name from the victim's.
pub const KILLED_TAG: &'static str = " killed ";

/// What separates the victim's name from the cause of death.
pub const BY_TAG: &'static str = " by ";

/// How many hyphens make up a spacer line.
pub const SPACER_WIDTH: usize = 60;

/// The result of a grammar rule: where the match ends and what it yields,
/// or where and why the text does not match.
pub type Parsed<T> = Result<(int, T), Mismatch>;

/// The outcome of a rule that does not match: `expected` was not found at
/// `position`.
pub open spec fn mismatch<T>(position: int, expected: Expected) -> Parsed<T> {
    Err(Mismatch { position, expected })
}

/// Whether the character `c` stands in `s` at position `at`.
pub open spec fn char_at(s: Seq<char>, at: int, c: char) -> bool {
    0 <= at < s.len() && s[at] == c
}

/// Zero or more blanks.
pub open spec fn blanks(s: Seq<char>, from: int) -> Parsed<Seq<char>> {
    let end = run_end(s, CharClass::Blank, from);
    Ok((end, s.subrange(from, end)))
}

/// Zero or more decimal digits.
pub open spec fn decimals(s: Seq<char>, from: int) -> Parsed<Seq<char>> {
    let end = run_end(s, CharClass::Digit, from);
    Ok((end, s.subrange(from, end)))
}

/// A timestamp: optional blanks, the minutes, a colon, the seconds. Either
/// number may be empty; only a missing colon is a mismatch.
pub open spec fn timestamp(s: Seq<char>, from: int) -> Parsed<(Seq<char>, Seq<char>)> {
    let start = run_end(s, CharClass::Blank, from);
    let sep = run_end(s, CharClass::Digit, start);
    let end = run_end(s, CharClass::Digit, sep + 1);
    if char_at(s, sep, ':') {
        Ok((end, (s.subrange(start, sep), s.subrange(sep + 1, end))))
    } else {
        mismatch(sep, Expected::Colon)
    }
}

/// A spacer line: a run of hyphens that is exactly `SPACER_WIDTH` long. A
/// shorter run is a mismatch, and so is a longer one.
pub open spec fn spacer_line(s: Seq<char>, from: int) -> Parsed<Seq<char>> {
    let end = run_end(s, CharClass::Hyphen, from);
    if end - from == SPACER_WIDTH {
        Ok((end, s.subrange(from, end)))
    } else {
        mismatch(from, Expected::Spacer)
    }
}

/// A spacer line is sixty hyphens with no hyphen behind them.
pub proof fn lemma_spacer_line(s: Seq<char>, from: int)
    requires
        0 <= from <= s.len(),
    ensures
        spacer_line(s, from).is_ok() <==> {
            &&& from + SPACER_WIDTH <= s.len()
            &&& forall|i: int| from <= i < from + SPACER_WIDTH ==> #[trigger] s[i] == '-'
            &&& !char_at(s, from + SPACER_WIDTH, '-')
        },
        spacer_line(s, from) matches Ok((end, hyphens)) ==> end == from + SPACER_WIDTH && hyphens
            == s.subrange(from, from + SPACER_WIDTH),
{
    lemma_run_end(s, CharClass::Hyphen, from);
    let end = run_end(s, CharClass::Hyphen, from);
    if from + SPACER_WIDTH <= s.len() && (forall|i: int|
        from <= i < from + SPACER_WIDTH ==> #[trigger] s[i] == '-') && !char_at(
        s,
        from + SPACER_WIDTH,
        '-',
    ) {
        lemma_run_end_unique(s, CharClass::Hyphen, from, from + SPACER_WIDTH);
    }
}

/// The three numbers that follow the header of a kill line:
/// a colon, optional blanks, then three non-empty decimal numbers with
/// a single space between them, and a closing colon.
pub open spec fn kill_metadata(s: Seq<char>, from: int) -> Parsed<
    (Seq<char>, Seq<char>, Seq<char>),
> {
    let first = run_end(s, CharClass::Blank, from + 1);
    let first_end = run_end(s, CharClass::Digit, first);
    let second_end = run_end(s, CharClass::Digit, first_end + 1);
    let third_end = run_end(s, CharClass::Digit, second_end + 1);
    if !char_at(s, from, ':') {
        mismatch(from, Expected::Colon)
    } else if first_end == first {
        mismatch(first, Expected::Digits)
    } else if !char_at(s, first_end, ' ') {
        mismatch(first_end, Expected::Space)
    } else if second_end == first_end + 1 {
        mismatch(first_end + 1, Expected::Digits)
    } else if !char_at(s, second_end, ' ') {
        mismatch(second_end, Expected::Space)
    } else if third_end == second_end + 1 {
        mismatch(second_end + 1, Expected::Digits)
    } else if !char_at(s, third_end, ':') {
        mismatch(third_end, Expected::Colon)
    } else {
        Ok(
            (
                third_end + 1,
                (
                    s.subrange(first, first_end),
                    s.subrange(first_end + 1, second_end),
                    s.subrange(second_end + 1, third_end),
                ),
            ),
        )
    }
}

/// What a kill message says: who killed whom, and by what means.
pub struct KillEvent {
    pub attacker: Seq<char>,
    pub victim: Seq<char>,
    pub cause: CauseOfDeath,
}

/// A kill message: optional blanks, the attacker's name up to the first
/// `" killed "`, the victim's name up to the first `" by "` after that, and
/// the cause of death up to the next blank or the end of the text. Both names
/// and the cause are non-empty, and the cause is a canonical name.
///
/// A name that itself holds one of the two separators is cut at it: the
/// grammar has no way to tell.
pub open spec fn kill_message(s: Seq<char>, from: int) -> Parsed<KillEvent> {
    let attacker = run_end(s, CharClass::Blank, from);
    match first_occurrence(s, KILLED_TAG@, attacker) {
        Some(killed) if killed > attacker => {
            let victim = killed + KILLED_TAG@.len();
            match first_occurrence(s, BY_TAG@, victim) {
                Some(by) if by > victim => {
                    let cause = by + BY_TAG@.len();
                    let end = run_end(s, CharClass::Token, cause);
                    if end == cause {
                        mismatch(cause, Expected::CauseToken)
                    } else {
                        match CauseOfDeath::from_wire(s.subrange(cause, end)) {
                            Some(cause_of_death) => Ok(
                                (
                                    end,
                                    KillEvent {
                                        attacker: s.subrange(attacker, killed),
                                        victim: s.subrange(victim, by),
                                        cause: cause_of_death,
                                    },
                                ),
                            ),
                            None => mismatch(cause, Expected::KnownCause),
                        }
                    }
                },
                _ => mismatch(victim, Expected::By),
            }
        },
        _ => mismatch(attacker, Expected::Killed),
    }
}

/// What follows the header of a kill line: the three numbers, then the kill
/// message.
pub open spec fn kill(s: Seq<char>, from: int) -> Parsed<KillEvent> {
    match kill_metadata(s, from) {
        Ok((message, _)) => kill_message(s, message),
        Err(error) => Err(error),
    }
}

/// Whether a parser that returned `rest` and `value` agrees with the rule's
/// `outcome` on the text `s`: the rule matches, yields `value`, and `rest` is
/// what follows the match.
pub open spec fn splits<T>(outcome: Parsed<T>, s: Seq<char>, rest: Seq<char>, value: T) -> bool {
    outcome matches Ok((end, yielded)) && yielded == value && 0 <= end <= s.len() && rest
        == s.skip(end)
}

/// Whether a parser that returned `error` agrees with the rule's `outcome`.
pub open spec fn fails<T>(outcome: Parsed<T>, error: ParseError) -> bool {
    outcome matches Err(mismatch) && mismatch == error@
}

/// A stretch of a text: the position of its first character and the
/// position after its last.
#[derive(Clone, Copy)]
pub(crate) struct Span {
    pub start: usize,
    pub end: usize,
}

impl Span {
    /// Whether the stretch lies inside `s`.
    pub(crate) open spec fn within(self, s: Seq<char>) -> bool {
        self.start <= self.end <= s.len()
    }

    /// The characters of `s` that the stretch covers.
    pub(crate) open spec fn of(self, s: Seq<char>) -> Seq<char> {
        s.subrange(self.start as int, self.end as int)
    }

    /// The part of `input` that the stretch covers.
    pub(crate) fn cut<'a>(self, input: &'a str) -> (piece: &'a str)
        requires
            self.within(input@),
        ensures
            piece@ == self.of(input@),
    {
        input.substring_char(self.start, self.end)
    }
}

/// The information contained in a kill message, such as
/// `<world> killed Isgalamido by MOD_TRIGGER_HURT`: the attacker, the victim
/// and the cause of death, in this order.
#[derive(Debug, PartialEq, Eq)]
pub struct KillMessage<'a> {
    pub attacker: &'a str,
    pub victim: &'a str,
    pub cause_of_death: CauseOfDeath,
}

impl<'a> View for KillMessage<'a> {
    type V = KillEvent;

    open spec fn view(&self) -> KillEvent {
        KillEvent {
            attacker: self.attacker@,
            victim: self.victim@,
            cause: self.cause_of_death,
        }
    }
}

/// What is left of `input` from position `from` on.
fn rest_from<'a>(input: &'a str, text: &[char], from: usize) -> (rest: &'a str)
    requires
        text@ == input@,
        from <= text@.len(),
    ensures
        rest@ == input@.skip(from as int),
{
    input.substring_char(from, text.len())
}

/// The timestamp that starts at `from`: where it ends, and where its
/// minutes and its seconds stand.
pub(crate) fn timestamp_at(text: &[char], from: usize) -> (res: Result<
    (usize, (Span, Span)),
    ParseError,
>)
    requires
        from <= text@.len(),
    ensures
        match res {
            Ok((end, (minutes, seconds))) => {
                &&& timestamp(text@, from as int) == Ok::<_, Mismatch>(
                    (end as int, (minutes.of(text@), seconds.of(text@))),
                )
                &&& minutes.within(text@)
                &&& seconds.within(text@)
                &&& end <= text@.len()
            },
            Err(error) => fails(timestamp(text@, from as int), error),
        },
{
    let start = scan_run(text, CharClass::Blank, from);
    let sep = scan_run(text, CharClass::Digit, start);
    if sep < text.len() && text[sep] == ':' {
        let end = scan_run(text, CharClass::Digit, sep + 1);
        Ok((end, (Span { start, end: sep }, Span { start: sep + 1, end })))
    } else {
        Err(ParseError { position: sep, expected: Expected::Colon })
    }
}

/// The spacer line that starts at `from`: where it ends.
pub(crate) fn spacer_line_at(text: &[char], from: usize) -> (res: Result<usize, ParseError>)
    requires
        from <= text@.len(),
    ensures
        match res {
            Ok(end) => spacer_line(text@, from as int) == Ok::<_, Mismatch>(
                (end as int, text@.subrange(from as int, end as int)),
            ) && from <= end <= text@.len(),
            Err(error) => fails(spacer_line(text@, from as int), error),
        },
{
    let end = scan_run(text, CharClass::Hyphen, from);
    if end - from == SPACER_WIDTH {
        Ok(end)
    } else {
        Err(ParseError { position: from, expected: Expected::Spacer })
    }
}

/// The three numbers of a kill line that start at `from`: where they end,
/// and where each of them stands.
pub(crate) fn kill_metadata_at(text: &[char], from: usize) -> (res: Result<
    (usize, (Span, Span, Span)),
    ParseError,
>)
    requires
        from <= text@.len(),
    ensures
        match res {
            Ok((end, (first, second, third))) => {
                &&& kill_metadata(text@, from as int) == Ok::<_, Mismatch>(
                    (end as int, (first.of(text@), second.of(text@), third.of(text@))),
                )
                &&& first.within(text@)
                &&& second.within(text@)
                &&& third.within(text@)
                &&& end <= text@.len()
            },
            Err(error) => fails(kill_metadata(text@, from as int), error),
        },
{
    if !(from < text.len() && text[from] == ':') {
        return Err(ParseError { position: from, expected: Expected::Colon });
    }
    let first = scan_run(text, CharClass::Blank, from + 1);
    let first_end = scan_run(text, CharClass::Digit, first);
    if first_end == first {
        return Err(ParseError { position: first, expected: Expected::Digits });
    }
    if !(first_end < text.len() && text[first_end] == ' ') {
        return Err(ParseError { position: first_end, expected: Expected::Space });
    }
    let second = first_end + 1;
    let second_end = scan_run(text, CharClass::Digit, second);
    if second_end == second {
        return Err(ParseError { position: second, expected: Expected::Digits });
    }
    if !(second_end < text.len() && text[second_end] == ' ') {
        return Err(ParseError { position: second_end, expected: Expected::Space });
    }
    let third = second_end + 1;
    let third_end = scan_run(text, CharClass::Digit, third);
    if third_end == third {
        return Err(ParseError { position: third, expected: Expected::Digits });
    }
    if !(third_end < text.len() && text[third_end] == ':') {
        return Err(ParseError { position: third_end, expected: Expected::Colon });
    }
    Ok(
        (
            third_end + 1,
            (
                Span { start: first, end: first_end },
                Span { start: second, end: second_end },
                Span { start: third, end: third_end },
            ),
        ),
    )
}

/// The kill message of `input` that starts at `from`: where it ends, and
/// what it says. `text` holds the characters of `input`.
pub(crate) fn kill_message_at<'a>(input: &'a str, text: &[char], from: usize) -> (res: Result<
    (usize, KillMessage<'a>),
    ParseError,
>)
    requires
        text@ == input@,
        from <= text@.len(),
    ensures
        match res {
            Ok((end, message)) => kill_message(input@, from as int) == Ok::<_, Mismatch>(
                (end as int, message@),
            ) && end <= text@.len(),
            Err(error) => fails(kill_message(input@, from as int), error),
        },
{
    let killed_tag = str_to_chars(KILLED_TAG);
    let by_tag = str_to_chars(BY_TAG);
    let attacker = scan_run(text, CharClass::Blank, from);
    let killed = match find(text, killed_tag.as_slice(), attacker) {
        Some(killed) if killed > attacker => killed,
        _ => {
            return Err(ParseError { position: attacker, expected: Expected::Killed });
        },
    };
    proof {
        lemma_first_occurrence(text@, KILLED_TAG@, attacker as int);
        assert(occurs_at(text@, KILLED_TAG@, killed as int));
        assert(text@.len() == text.len());
    }
    let victim = killed + killed_tag.len();
    let by = match find(text, by_tag.as_slice(), victim) {
        Some(by) if by > victim => by,
        _ => {
            return Err(ParseError { position: victim, expected: Expected::By });
        },
    };
    proof {
        lemma_first_occurrence(text@, BY_TAG@, victim as int);
        assert(occurs_at(text@, BY_TAG@, by as int));
    }
    let cause = by + by_tag.len();
    let end = scan_run(text, CharClass::Token, cause);
    if end == cause {
        return Err(ParseError { position: cause, expected: Expected::CauseToken });
    }
    let token = Span { start: cause, end }.cut(input);
    match CauseOfDeath::from_str(token) {
        Ok(cause_of_death) => Ok(
            (
                end,
                KillMessage {
                    attacker: Span { start: attacker, end: killed }.cut(input),
                    victim: Span { start: victim, end: by }.cut(input),
                    cause_of_death,
                },
            ),
        ),
        Err(_) => Err(ParseError { position: cause, expected: Expected::KnownCause }),
    }
}

/// What follows the header of a kill line in `input` from `from` on: where
/// it ends, and what the kill message says. `text` holds the characters of
/// `input`.
pub(crate) fn kill_at<'a>(input: &'a str, text: &[char], from: usize) -> (res: Result<
    (usize, KillMessage<'a>),
    ParseError,
>)
    requires
        text@ == input@,
        from <= text@.len(),
    ensures
        match res {
            Ok((end, message)) => kill(input@, from as int) == Ok::<_, Mismatch>(
                (end as int, message@),
            ) && end <= text@.len(),
            Err(error) => fails(kill(input@, from as int), error),
        },
{
    match kill_metadata_at(text, from) {
        Ok((message, _)) => kill_message_at(input, text, message),
        Err(error) => Err(error),
    }
}

/// Parses leading blanks: space, tab, line feed, form feed and carriage
/// return. Always succeeds, possibly on no character at all.
pub fn parse_ws(input: &str) -> (res: Result<(&str, &str), ParseError>)
    ensures
        res matches Ok((rest, ws)) && splits(blanks(input@, 0), input@, rest@, ws@),
{
    let text = str_to_chars(input);
    let end = scan_run(text.as_slice(), CharClass::Blank, 0);
    Ok((rest_from(input, text.as_slice(), end), Span { start: 0, end }.cut(input)))
}

/// Parses leading decimal digits. Always succeeds, possibly on no digit at
/// all: it is for the caller to say whether a number may be empty.
pub fn parse_decimals(input: &str) -> (res: Result<(&str, &str), ParseError>)
    ensures
        res matches Ok((rest, digits)) && splits(decimals(input@, 0), input@, rest@, digits@),
{
    let text = str_to_chars(input);
    let end = scan_run(text.as_slice(), CharClass::Digit, 0);
    Ok((rest_from(input, text.as_slice(), end), Span { start: 0, end }.cut(input)))
}

/// Parses timestamps in the form of `MM:ss`, after optional blanks.
///
/// `MM` and `ss` are returned as string slices, either of which may be
/// empty. Fails where no colon follows `MM`.
pub fn parse_timestamp(input: &str) -> (res: Result<(&str, (&str, &str)), ParseError>)
    ensures
        match res {
            Ok((rest, (minutes, seconds))) => splits(
                timestamp(input@, 0),
                input@,
                rest@,
                (minutes@, seconds@),
            ),
            Err(error) => fails(timestamp(input@, 0), error),
        },
{
    let text = str_to_chars(input);
    match timestamp_at(text.as_slice(), 0) {
        Ok((end, (minutes, seconds))) => Ok(
            (rest_from(input, text.as_slice(), end), (minutes.cut(input), seconds.cut(input))),
        ),
        Err(error) => Err(error),
    }
}

/// Parses a spacer line: that is, a run of exactly 60 hyphens. Fails on a
/// run of any other length.
pub fn parse_spacer_line(input: &str) -> (res: Result<(&str, &str), ParseError>)
    ensures
        match res {
            Ok((rest, hyphens)) => splits(spacer_line(input@, 0), input@, rest@, hyphens@),
            Err(error) => fails(spacer_line(input@, 0), error),
        },
{
    let text = str_to_chars(input);
    match spacer_line_at(text.as_slice(), 0) {
        Ok(end) => Ok((rest_from(input, text.as_slice(), end), Span { start: 0, end }.cut(input))),
        Err(error) => Err(error),
    }
}

/// Parses the "metadata" of a log line describing a kill, that is, what
/// stands between the header and the message, as in `: 1022 2 22:`.
///
/// Returns the three numbers as string slices.
pub fn parse_kill_metadata(input: &str) -> (res: Result<(&str, (&str, &str, &str)), ParseError>)
    ensures
        match res {
            Ok((rest, (first, second, third))) => splits(
                kill_metadata(input@, 0),
                input@,
                rest@,
                (first@, second@, third@),
            ),
            Err(error) => fails(kill_metadata(input@, 0), error),
        },
{
    let text = str_to_chars(input);
    match kill_metadata_at(text.as_slice(), 0) {
        Ok((end, (first, second, third))) => Ok(
            (
                rest_from(input, text.as_slice(), end),
                (first.cut(input), second.cut(input), third.cut(input)),
            ),
        ),
        Err(error) => Err(error),
    }
}

/// Parses a kill message, such as
/// `<world> killed Isgalamido by MOD_TRIGGER_HURT`.
pub fn parse_kill_message<'a>(input: &'a str) -> (res: Result<
    (&'a str, KillMessage<'a>),
    ParseError,
>)
    ensures
        match res {
            Ok((rest, message)) => splits(kill_message(input@, 0), input@, rest@, message@),
            Err(error) => fails(kill_message(input@, 0), error),
        },
{
    let text = str_to_chars(input);
    match kill_message_at(input, text.as_slice(), 0) {
        Ok((end, message)) => Ok((rest_from(input, text.as_slice(), end), message)),
        Err(error) => Err(error),
    }
}

/// Parses what follows the header of a kill line: the metadata, then the
/// kill message.
pub fn parse_kill<'a>(input: &'a str) -> (res: Result<(&'a str, KillMessage<'a>), ParseError>)
    ensures
        match res {
            Ok((rest, message)) => splits(kill(input@, 0), input@, rest@, message@),
            Err(error) => fails(kill(input@, 0), error),
        },
{
    let text = str_to_chars(input);
    match kill_at(input, text.as_slice(), 0) {
        Ok((end, message)) => Ok((rest_from(input, text.as_slice(), end), message)),
        Err(error) => Err(error),
    }
}

} // verus!
