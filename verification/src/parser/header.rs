//! The header of a log line: what kind of line it is.

use vstd::prelude::*;

use super::combinator::{
    fails, mismatch, spacer_line, spacer_line_at, splits, timestamp, timestamp_at, Parsed,
};
use crate::error::{Expected, Mismatch, ParseError};
use crate::text::{matches_at, occurs_at, run_end, scan_run, str_to_chars, CharClass};

verus! {

/// A possible "header" for a line within the Quake 3 Arena log.
#[derive(Clone, Copy, PartialEq, Eq, Debug)]
pub enum Header {
    InitGame,
    Kill,
    ClientBegin,
    ClientUserinfoChanged,
    ClientConnect,
    ShutdownGame,
    Score,
    Item,
    Exit,
    /// Not an actual action but represents the "spacer" line
    /// that comes after `ShutdownGame` and before `InitGame`:
    /// a timestamp followed by sixty hyphens.
    Spacer,
}

impl Header {
    /// The keyword that announces the header. The spacer has none: it is
    /// recognised by its hyphens.
    pub open spec fn keyword(self) -> Option<Seq<char>> {
        match self {
            Header::InitGame => Some("InitGame"@),
            Header::Kill => Some("Kill"@),
            Header::ClientBegin => Some("ClientBegin"@),
            Header::ClientUserinfoChanged => Some("ClientUserinfoChanged"@),
            Header::ClientConnect => Some("ClientConnect"@),
            Header::ShutdownGame => Some("ShutdownGame"@),
            Header::Score => Some("score"@),
            Header::Item => Some("Item"@),
            Header::Exit => Some("Exit"@),
            Header::Spacer => None,
        }
    }

    /// Where the keyword of the header ends, if it stands in `s` at `at`.
    pub open spec fn keyword_end(self, s: Seq<char>, at: int) -> Option<int> {
        match self.keyword() {
            Some(keyword) if occurs_at(s, keyword, at) => Some(at + keyword.len()),
            _ => None,
        }
    }

    /// The keyword that announces the header, if it has one.
    pub fn keyword_str(self) -> (keyword: Option<&'static str>)
        ensures
            match keyword {
                Some(keyword) => self.keyword() == Some(keyword@),
                None => self.keyword().is_none(),
            },
    {
        match self {
            Header::InitGame => Some("InitGame"),
            Header::Kill => Some("Kill"),
            Header::ClientBegin => Some("ClientBegin"),
            Header::ClientUserinfoChanged => Some("ClientUserinfoChanged"),
            Header::ClientConnect => Some("ClientConnect"),
            Header::ShutdownGame => Some("ShutdownGame"),
            Header::Score => Some("score"),
            Header::Item => Some("Item"),
            Header::Exit => Some("Exit"),
            Header::Spacer => None,
        }
    }

    /// Where the keyword of the header ends, if it stands in `text` at `at`.
    pub(crate) fn keyword_end_at(self, text: &[char], at: usize) -> (end: Option<usize>)
        ensures
            match end {
                Some(end) => self.keyword_end(text@, at as int) == Some(end as int) && end
                    <= text@.len(),
                None => self.keyword_end(text@, at as int).is_none(),
            },
    {
        match self.keyword_str() {
            Some(keyword) => {
                let keyword = str_to_chars(keyword);
                if matches_at(text, keyword.as_slice(), at) {
                    assert(text@.len() == text.len());
                    Some(at + keyword.len())
                } else {
                    None
                }
            },
            None => None,
        }
    }
}

/// The header whose keyword stands in `s` at `at`, and where the keyword
/// ends. The keywords are tried in the order in which [`Header`] lists them,
/// and the first that matches wins.
pub open spec fn keyword_header(s: Seq<char>, at: int) -> Option<(int, Header)> {
    if let Some(end) = Header::InitGame.keyword_end(s, at) {
        Some((end, Header::InitGame))
    } else if let Some(end) = Header::Kill.keyword_end(s, at) {
        Some((end, Header::Kill))
    } else if let Some(end) = Header::ClientBegin.keyword_end(s, at) {
        Some((end, Header::ClientBegin))
    } else if let Some(end) = Header::ClientUserinfoChanged.keyword_end(s, at) {
        Some((end, Header::ClientUserinfoChanged))
    } else if let Some(end) = Header::ClientConnect.keyword_end(s, at) {
        Some((end, Header::ClientConnect))
    } else if let Some(end) = Header::ShutdownGame.keyword_end(s, at) {
        Some((end, Header::ShutdownGame))
    } else if let Some(end) = Header::Score.keyword_end(s, at) {
        Some((end, Header::Score))
    } else if let Some(end) = Header::Item.keyword_end(s, at) {
        Some((end, Header::Item))
    } else if let Some(end) = Header::Exit.keyword_end(s, at) {
        Some((end, Header::Exit))
    } else {
        None
    }
}

/// The header of a line: a timestamp, optional blanks, and then either one
/// of the keywords or, if none of them stands there, a spacer line. The match
/// ends right behind the keyword, so that what follows still has its colon.
pub open spec fn header(s: Seq<char>, from: int) -> Parsed<Header> {
    match timestamp(s, from) {
        Ok((after, _)) => {
            let at = run_end(s, CharClass::Blank, after);
            match keyword_header(s, at) {
                Some(found) => Ok(found),
                None => match spacer_line(s, at) {
                    Ok((end, _)) => Ok((end, Header::Spacer)),
                    Err(_) => mismatch(at, Expected::Header),
                },
            }
        },
        Err(error) => Err(error),
    }
}

/// The header of the line that starts at `from`: where it ends, and which
/// one it is.
pub(crate) fn header_at(text: &[char], from: usize) -> (res: Result<(usize, Header), ParseError>)
    requires
        from <= text@.len(),
    ensures
        match res {
            Ok((end, found)) => header(text@, from as int) == Ok::<_, Mismatch>(
                (end as int, found),
            ) && end <= text@.len(),
            Err(error) => fails(header(text@, from as int), error),
        },
{
    let after = match timestamp_at(text, from) {
        Ok((after, _)) => after,
        Err(error) => {
            return Err(error);
        },
    };
    let at = scan_run(text, CharClass::Blank, after);
    if let Some(end) = Header::InitGame.keyword_end_at(text, at) {
        Ok((end, Header::InitGame))
    } else if let Some(end) = Header::Kill.keyword_end_at(text, at) {
        Ok((end, Header::Kill))
    } else if let Some(end) = Header::ClientBegin.keyword_end_at(text, at) {
        Ok((end, Header::ClientBegin))
    } else if let Some(end) = Header::ClientUserinfoChanged.keyword_end_at(text, at) {
        Ok((end, Header::ClientUserinfoChanged))
    } else if let Some(end) = Header::ClientConnect.keyword_end_at(text, at) {
        Ok((end, Header::ClientConnect))
    } else if let Some(end) = Header::ShutdownGame.keyword_end_at(text, at) {
        Ok((end, Header::ShutdownGame))
    } else if let Some(end) = Header::Score.keyword_end_at(text, at) {
        Ok((end, Header::Score))
    } else if let Some(end) = Header::Item.keyword_end_at(text, at) {
        Ok((end, Header::Item))
    } else if let Some(end) = Header::Exit.keyword_end_at(text, at) {
        Ok((end, Header::Exit))
    } else {
        match spacer_line_at(text, at) {
            Ok(end) => Ok((end, Header::Spacer)),
            Err(_) => Err(ParseError { position: at, expected: Expected::Header }),
        }
    }
}

/// Parses the header of a log line. What is left starts right behind the
/// header's keyword, or behind the hyphens of a spacer line.
pub fn parse_header(input: &str) -> (res: Result<(&str, Header), ParseError>)
    ensures
        match res {
            Ok((rest, found)) => splits(header(input@, 0), input@, rest@, found),
            Err(error) => fails(header(input@, 0), error),
        },
{
    let text = str_to_chars(input);
    match header_at(text.as_slice(), 0) {
        Ok((end, found)) => Ok((input.substring_char(end, text.len()), found)),
        Err(error) => Err(error),
    }
}

/// The character of `s` that faces the `i`-th character of a keyword
/// standing at `at`.
proof fn lemma_keyword_char(s: Seq<char>, keyword: Seq<char>, at: int, i: int)
    requires
        occurs_at(s, keyword, at),
        0 <= i < keyword.len(),
    ensures
        s[at + i] == keyword[i],
{
}

/// No keyword is the beginning of another, so at most one of them stands
/// at a position: the order in which they are tried decides nothing.
pub proof fn lemma_keyword_alone(s: Seq<char>, at: int, found: Header)
    requires
        found.keyword_end(s, at).is_some(),
    ensures
        keyword_header(s, at) == Some((found.keyword_end(s, at).unwrap(), found)),
{
    reveal_strlit("InitGame");
    reveal_strlit("Kill");
    reveal_strlit("ClientBegin");
    reveal_strlit("ClientUserinfoChanged");
    reveal_strlit("ClientConnect");
    reveal_strlit("ShutdownGame");
    reveal_strlit("score");
    reveal_strlit("Item");
    reveal_strlit("Exit");
    // The first two characters tell the keywords apart, but for the three
    // that begin with `Client`: those differ in the seventh.
    assert forall|other: Header| #[trigger] other.keyword_end(s, at).is_some() implies other
        == found by {
        let a = found.keyword().unwrap();
        let b = other.keyword().unwrap();
        lemma_keyword_char(s, a, at, 0);
        lemma_keyword_char(s, a, at, 1);
        lemma_keyword_char(s, b, at, 0);
        lemma_keyword_char(s, b, at, 1);
        if a.len() > 6 && b.len() > 6 {
            lemma_keyword_char(s, a, at, 6);
            lemma_keyword_char(s, b, at, 6);
        }
    }
}

} // verus!
