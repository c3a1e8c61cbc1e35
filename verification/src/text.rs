//! Character sequences: runs of a character class, occurrences of a pattern,
//! and the few string operations the rest of the crate is built on.

use vstd::prelude::*;
use vstd::string::StringSliceAdditionalSpecFns;

verus! {

/// The blanks of the log grammar: space, tab, line feed, form feed and
/// carriage return.
pub open spec fn is_blank(c: char) -> bool {
    c == ' ' || c == '\t' || c == '\n' || c == '\x0C' || c == '\r'
}

/// The ten ASCII decimal digits.
pub open spec fn is_decimal(c: char) -> bool {
    '0' <= c <= '9'
}

/// The classes of characters that the log grammar tells apart.
#[derive(Clone, Copy, PartialEq, Eq, Debug)]
pub enum CharClass {
    /// A blank, see [`is_blank`].
    Blank,
    /// Anything but a blank.
    Token,
    /// A decimal digit, see [`is_decimal`].
    Digit,
    /// The hyphen `-`.
    Hyphen,
}

impl CharClass {
    /// Whether `c` belongs to the class.
    pub open spec fn holds(self, c: char) -> bool {
        match self {
            CharClass::Blank => is_blank(c),
            CharClass::Token => !is_blank(c),
            CharClass::Digit => is_decimal(c),
            CharClass::Hyphen => c == '-',
        }
    }

    /// Whether `c` belongs to the class.
    pub fn contains(self, c: char) -> (b: bool)
        ensures
            b == self.holds(c),
    {
        let blank = c == ' ' || c == '\t' || c == '\n' || c == '\x0C' || c == '\r';
        match self {
            CharClass::Blank => blank,
            CharClass::Token => !blank,
            CharClass::Digit => '0' <= c && c <= '9',
            CharClass::Hyphen => c == '-',
        }
    }
}

/// Where the run of `class` characters that starts at `from` ends: the first
/// position at or after `from` that holds a character outside the class, or
/// the length of `s` if there is none.
pub open spec fn run_end(s: Seq<char>, class: CharClass, from: int) -> int
    decreases s.len() - from,
{
    if 0 <= from < s.len() && class.holds(s[from]) {
        run_end(s, class, from + 1)
    } else {
        from
    }
}

/// `run_end` is the one position that closes the run: everything before it
/// is in the class, and what stands at it, if anything, is not.
pub proof fn lemma_run_end(s: Seq<char>, class: CharClass, from: int)
    requires
        0 <= from <= s.len(),
    ensures
        from <= run_end(s, class, from) <= s.len(),
        forall|i: int| from <= i < run_end(s, class, from) ==> class.holds(#[trigger] s[i]),
        run_end(s, class, from) < s.len() ==> !class.holds(s[run_end(s, class, from)]),
    decreases s.len() - from,
{
    if from < s.len() && class.holds(s[from]) {
        lemma_run_end(s, class, from + 1);
    }
}

/// Any position that closes the run is `run_end`.
pub proof fn lemma_run_end_unique(s: Seq<char>, class: CharClass, from: int, end: int)
    requires
        0 <= from <= end <= s.len(),
        forall|i: int| from <= i < end ==> class.holds(#[trigger] s[i]),
        end < s.len() ==> !class.holds(s[end]),
    ensures
        run_end(s, class, from) == end,
    decreases end - from,
{
    if from < end {
        lemma_run_end_unique(s, class, from + 1, end);
    }
}

/// Whether the whole of `s` from `from` on lies in `class`.
pub open spec fn all_in(s: Seq<char>, class: CharClass, from: int) -> bool {
    forall|i: int| 0 <= from <= i < s.len() ==> class.holds(#[trigger] s[i])
}

/// Whether `pattern` stands in `s` at position `at`.
pub open spec fn occurs_at(s: Seq<char>, pattern: Seq<char>, at: int) -> bool {
    &&& 0 <= at
    &&& at + pattern.len() <= s.len()
    &&& s.subrange(at, at + pattern.len()) == pattern
}

/// The first position at or after `from` at which `pattern` stands in `s`.
pub open spec fn first_occurrence(s: Seq<char>, pattern: Seq<char>, from: int) -> Option<int>
    decreases s.len() - from + 1,
{
    if from < 0 || from + pattern.len() > s.len() {
        None
    } else if occurs_at(s, pattern, from) {
        Some(from)
    } else {
        first_occurrence(s, pattern, from + 1)
    }
}

/// `first_occurrence` finds an occurrence, and there is none before it.
pub proof fn lemma_first_occurrence(s: Seq<char>, pattern: Seq<char>, from: int)
    requires
        0 <= from,
    ensures
        match first_occurrence(s, pattern, from) {
            Some(at) => from <= at && occurs_at(s, pattern, at) && forall|i: int|
                from <= i < at ==> !occurs_at(s, pattern, i),
            None => forall|i: int| from <= i ==> !occurs_at(s, pattern, i),
        },
    decreases s.len() - from + 1,
{
    if from + pattern.len() <= s.len() && !occurs_at(s, pattern, from) {
        lemma_first_occurrence(s, pattern, from + 1);
    }
}

/// The end of the run of `class` characters that starts at `from`. From a
/// position behind the text the run is empty, and ends where it starts.
pub fn scan_run(text: &[char], class: CharClass, from: usize) -> (end: usize)
    ensures
        end == run_end(text@, class, from as int),
        from <= end,
        from <= text@.len() ==> end <= text@.len(),
{
    let mut end = from;
    while end < text.len() && class.contains(text[end])
        invariant
            from <= end,
            from <= text@.len() ==> end <= text@.len(),
            run_end(text@, class, from as int) == run_end(text@, class, end as int),
        decreases text@.len() - end,
    {
        end += 1;
    }
    end
}

/// Whether `pattern` stands in `text` at position `at`.
pub fn matches_at(text: &[char], pattern: &[char], at: usize) -> (found: bool)
    ensures
        found == occurs_at(text@, pattern@, at as int),
{
    let width = pattern.len();
    if width > text.len() || at > text.len() - width {
        return false;
    }
    let mut i: usize = 0;
    while i < width
        invariant
            0 <= i <= width == pattern@.len(),
            at + width <= text.len(),
            forall|j: int| 0 <= j < i ==> text@[at + j] == pattern@[j],
        decreases width - i,
    {
        if text[at + i] != pattern[i] {
            assert(text@.subrange(at as int, at + pattern@.len())[i as int] != pattern@[i as int]);
            return false;
        }
        i += 1;
    }
    assert(text@.subrange(at as int, at + pattern@.len()) =~= pattern@);
    true
}

/// The first position at or after `from` at which `pattern` stands in `text`.
pub fn find(text: &[char], pattern: &[char], from: usize) -> (found: Option<usize>)
    ensures
        match found {
            Some(at) => first_occurrence(text@, pattern@, from as int) == Some(at as int),
            None => first_occurrence(text@, pattern@, from as int).is_none(),
        },
{
    let mut at = from;
    while at <= text.len()
        invariant
            from <= at,
            first_occurrence(text@, pattern@, from as int) == first_occurrence(
                text@,
                pattern@,
                at as int,
            ),
        decreases text.len() + 1 - at,
    {
        if matches_at(text, pattern, at) {
            return Some(at);
        }
        if at == text.len() {
            assert(first_occurrence(text@, pattern@, at + 1).is_none());
            return None;
        }
        at += 1;
    }
    None
}

/// The characters of `s`, in order.
pub fn str_to_chars(s: &str) -> (chars: Vec<char>)
    ensures
        chars@ == s@,
{
    let mut chars: Vec<char> = Vec::new();
    for c in it: s.chars()
        invariant
            chars@ == it.seq().take(it.index() as int),
            it.seq() == s@,
    {
        chars.push(c);
    }
    chars
}

/// Whether two string slices hold the same characters.
pub fn str_eq(a: &str, b: &str) -> (equal: bool)
    ensures
        equal == (a@ == b@),
{
    let x = a.as_bytes();
    let y = b.as_bytes();
    if x.len() != y.len() {
        return false;
    }
    let mut i: usize = 0;
    while i < x.len()
        invariant
            x@.len() == y@.len(),
            0 <= i <= x@.len(),
            forall|j: int| 0 <= j < i ==> x@[j] == y@[j],
            x@ == a.spec_bytes(),
            y@ == b.spec_bytes(),
        decreases x@.len() - i,
    {
        if x[i] != y[i] {
            return false;
        }
        i += 1;
    }
    proof {
        // Equal encodings decode to equal texts.
        assert(x@ =~= y@);
        vstd::utf8::encode_utf8_decode_utf8(a@);
        vstd::utf8::encode_utf8_decode_utf8(b@);
    }
    true
}

} // verus!
