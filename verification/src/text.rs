//! Text as sequences of characters: searching for a fragment, splitting into
//! words, lowering case and writing numbers in decimal.

use vstd::prelude::*;

verus! {

/// `needle` stands in `hay` at position `at`.
pub open spec fn occurs_at(hay: Seq<char>, needle: Seq<char>, at: int) -> bool {
    &&& 0 <= at
    &&& at + needle.len() <= hay.len()
    &&& hay.subrange(at, at + needle.len()) == needle
}

/// `needle` stands somewhere in `hay`.
pub open spec fn contains(hay: Seq<char>, needle: Seq<char>) -> bool {
    exists|at: int| occurs_at(hay, needle, at)
}

/// `at` is the leftmost position at which `needle` stands in `hay`.
pub open spec fn is_first_occurrence(hay: Seq<char>, needle: Seq<char>, at: int) -> bool {
    &&& occurs_at(hay, needle, at)
    &&& forall|earlier: int| 0 <= earlier < at ==> !occurs_at(hay, needle, earlier)
}

/// The leftmost position at which `needle` stands in `hay`, if it stands
/// there at all.
pub open spec fn first_occurrence(hay: Seq<char>, needle: Seq<char>) -> Option<int> {
    if contains(hay, needle) {
        Some(choose|at: int| is_first_occurrence(hay, needle, at))
    } else {
        None
    }
}

/// A leftmost position is the only one.
pub proof fn first_occurrence_is(hay: Seq<char>, needle: Seq<char>, at: int)
    requires
        is_first_occurrence(hay, needle, at),
    ensures
        first_occurrence(hay, needle) == Some(at),
{
}

/// The decimal digit for `d`.
pub open spec fn digit(d: nat) -> char
    recommends
        d < 10,
{
    if d == 0 {
        '0'
    } else if d == 1 {
        '1'
    } else if d == 2 {
        '2'
    } else if d == 3 {
        '3'
    } else if d == 4 {
        '4'
    } else if d == 5 {
        '5'
    } else if d == 6 {
        '6'
    } else if d == 7 {
        '7'
    } else if d == 8 {
        '8'
    } else {
        '9'
    }
}

/// `n` written in decimal, without sign or leading zeros.
pub open spec fn decimal(n: nat) -> Seq<char>
    decreases n,
{
    if n < 10 {
        seq![digit(n)]
    } else {
        decimal(n / 10).push(digit(n % 10))
    }
}

/// Whether `char::is_whitespace` holds of `c`: whether Unicode gives it the
/// property `White_Space`.
pub uninterp spec fn char_is_whitespace(c: char) -> bool;

/// What `str::to_lowercase` returns for the text `s`.
pub uninterp spec fn lowercase(s: Seq<char>) -> Seq<char>;

/// The number of characters before the first white space of `s`.
pub open spec fn word_len(s: Seq<char>) -> nat
    decreases s.len(),
{
    if s.len() == 0 || char_is_whitespace(s[0]) {
        0
    } else {
        1 + word_len(s.drop_first())
    }
}

/// The words of `s`: its longest runs of characters that are no white space,
/// from left to right. None of them is empty.
pub open spec fn words(s: Seq<char>) -> Seq<Seq<char>>
    decreases s.len(),
{
    if s.len() == 0 {
        Seq::empty()
    } else if char_is_whitespace(s[0]) {
        words(s.drop_first())
    } else {
        proof {
            word_len_bounds(s);
        }
        seq![s.take(word_len(s) as int)] + words(s.skip(word_len(s) as int))
    }
}

/// A word is no longer than the text it begins, and not empty where the text
/// begins with something other than white space.
pub proof fn word_len_bounds(s: Seq<char>)
    ensures
        word_len(s) <= s.len(),
        s.len() > 0 && !char_is_whitespace(s[0]) ==> word_len(s) >= 1,
    decreases s.len(),
{
    if s.len() > 0 && !char_is_whitespace(s[0]) {
        word_len_bounds(s.drop_first());
    }
}

/// No word is empty, and none holds white space.
pub proof fn words_hold_no_space(s: Seq<char>, k: int)
    requires
        0 <= k < words(s).len(),
    ensures
        words(s)[k].len() > 0,
        forall|j: int|
            0 <= j < words(s)[k].len() ==> !char_is_whitespace(#[trigger] words(s)[k][j]),
    decreases s.len(),
{
    if s.len() > 0 {
        if char_is_whitespace(s[0]) {
            words_hold_no_space(s.drop_first(), k);
        } else {
            word_len_bounds(s);
            if k == 0 {
                word_holds_no_space(s);
            } else {
                words_hold_no_space(s.skip(word_len(s) as int), k - 1);
            }
        }
    }
}

/// The characters before the first white space are no white space.
proof fn word_holds_no_space(s: Seq<char>)
    ensures
        forall|j: int| 0 <= j < word_len(s) ==> !char_is_whitespace(#[trigger] s[j]),
    decreases s.len(),
{
    word_len_bounds(s);
    if s.len() > 0 && !char_is_whitespace(s[0]) {
        word_holds_no_space(s.drop_first());
        assert forall|j: int| 0 <= j < word_len(s) implies !char_is_whitespace(#[trigger] s[j]) by {
            if j > 0 {
                assert(s[j] == s.drop_first()[j - 1]);
            }
        }
    }
}

/// The views of a vector of strings.
pub open spec fn views(strings: Seq<String>) -> Seq<Seq<char>> {
    strings.map_values(|s: String| s@)
}

/// Calls `char::is_whitespace`.
#[verifier::external_body]
fn is_whitespace(c: char) -> (b: bool)
    ensures
        b == char_is_whitespace(c),
{
    c.is_whitespace()
}

/// Calls `str::to_lowercase`, which depends on the text alone.
#[verifier::external_body]
pub(crate) fn to_lowercase(s: &str) -> (lower: String)
    ensures
        lower@ == lowercase(s@),
{
    s.to_lowercase()
}

/// Copies the characters of `s` into a vector.
pub fn chars_of(s: &str) -> (chars: Vec<char>)
    ensures
        chars@ == s@,
{
    let mut chars: Vec<char> = Vec::new();
    for c in it: s.chars()
        invariant
            chars@ == it.seq().take(it.index() as int),
            it.seq() == s@,
    {
        chars.push(c);
    }
    chars
}

/// Tells whether `needle` stands in `hay` at position `at`.
fn matches_at(hay: &Vec<char>, needle: &Vec<char>, at: usize) -> (found: bool)
    requires
        at + needle.len() <= hay.len(),
    ensures
        found == occurs_at(hay@, needle@, at as int),
{
    let mut k: usize = 0;
    while k < needle.len()
        invariant
            k <= needle.len(),
            at + needle.len() <= hay.len(),
            forall|j: int| 0 <= j < k ==> hay@[at + j] == needle@[j],
        decreases needle.len() - k,
    {
        if hay[at + k] != needle[k] {
            return false;
        }
        k += 1;
    }
    assert(hay@.subrange(at as int, at + needle.len()) =~= needle@);
    true
}

/// Finds the leftmost place where `needle` stands in `hay`.
pub fn find(hay: &Vec<char>, needle: &Vec<char>) -> (place: Option<usize>)
    ensures
        match place {
            Some(at) => first_occurrence(hay@, needle@) == Some(at as int) && is_first_occurrence(
                hay@,
                needle@,
                at as int,
            ),
            None => first_occurrence(hay@, needle@) is None,
        },
{
    if needle.len() > hay.len() {
        return None;
    }
    let last: usize = hay.len() - needle.len();
    let mut at: usize = 0;
    while at < last
        invariant
            at <= last,
            last + needle.len() == hay.len(),
            forall|earlier: int| 0 <= earlier < at ==> !occurs_at(hay@, needle@, earlier),
        decreases last - at,
    {
        if matches_at(hay, needle, at) {
            proof {
                first_occurrence_is(hay@, needle@, at as int);
            }
            return Some(at);
        }
        at += 1;
    }
    if matches_at(hay, needle, at) {
        proof {
            first_occurrence_is(hay@, needle@, at as int);
        }
        Some(at)
    } else {
        None
    }
}

/// The one-character text that holds the decimal digit for `d`.
fn digit_text(d: u64) -> (text: &'static str)
    requires
        d < 10,
    ensures
        text@ == seq![digit(d as nat)],
{
    proof {
        reveal_strlit("0");
        reveal_strlit("1");
        reveal_strlit("2");
        reveal_strlit("3");
        reveal_strlit("4");
        reveal_strlit("5");
        reveal_strlit("6");
        reveal_strlit("7");
        reveal_strlit("8");
        reveal_strlit("9");
    }
    let text = if d == 0 {
        "0"
    } else if d == 1 {
        "1"
    } else if d == 2 {
        "2"
    } else if d == 3 {
        "3"
    } else if d == 4 {
        "4"
    } else if d == 5 {
        "5"
    } else if d == 6 {
        "6"
    } else if d == 7 {
        "7"
    } else if d == 8 {
        "8"
    } else {
        "9"
    };
    text
}

/// Writes `n` in decimal.
pub fn render_decimal(n: u64) -> (text: String)
    ensures
        text@ == decimal(n as nat),
    decreases n,
{
    if n < 10 {
        digit_text(n).to_owned()
    } else {
        let mut text = render_decimal(n / 10);
        text.append(digit_text(n % 10));
        text
    }
}

/// A word begins where white space ends: the words of `s` from a white-space
/// character on are those after it.
proof fn words_skip_space(s: Seq<char>, from: int)
    requires
        0 <= from < s.len(),
        char_is_whitespace(s[from]),
    ensures
        words(s.skip(from)) == words(s.skip(from + 1)),
{
    assert(s.skip(from).drop_first() =~= s.skip(from + 1));
}

/// The run of characters from `from` up to `to` that holds no white space and
/// ends at one, or at the end of `s`, is the first word of `s` from `from` on.
proof fn words_take_word(s: Seq<char>, from: int, to: int)
    requires
        0 <= from < to <= s.len(),
        forall|k: int| from <= k < to ==> !char_is_whitespace(s[k]),
        to < s.len() ==> char_is_whitespace(s[to]),
    ensures
        words(s.skip(from)) == seq![s.subrange(from, to)] + words(s.skip(to)),
{
    word_len_is(s, from, to);
    let rest = s.skip(from);
    assert(rest.take(to - from) =~= s.subrange(from, to));
    assert(rest.skip(to - from) =~= s.skip(to));
}

/// The length of the first word of `s` from `from` on, given where it ends.
proof fn word_len_is(s: Seq<char>, from: int, to: int)
    requires
        0 <= from <= to <= s.len(),
        forall|k: int| from <= k < to ==> !char_is_whitespace(s[k]),
        to < s.len() ==> char_is_whitespace(s[to]),
    ensures
        word_len(s.skip(from)) == to - from,
    decreases to - from,
{
    if from < to {
        word_len_is(s, from + 1, to);
        assert(s.skip(from).drop_first() =~= s.skip(from + 1));
    }
}

/// Splits `s` into its words, as `str::split_whitespace` does.
pub fn split_words(s: &str) -> (found: Vec<String>)
    ensures
        views(found@) == words(s@),
{
    let chars = chars_of(s);
    let mut found: Vec<String> = Vec::new();
    let mut at: usize = 0;
    assert(s@.skip(0) =~= s@);
    while at < chars.len()
        invariant
            at <= chars.len(),
            chars@ == s@,
            words(s@) == views(found@) + words(s@.skip(at as int)),
        decreases chars.len() - at,
    {
        if is_whitespace(chars[at]) {
            proof {
                words_skip_space(s@, at as int);
            }
            at += 1;
        } else {
            let mut end: usize = at + 1;
            while end < chars.len() && !is_whitespace(chars[end])
                invariant
                    at < end <= chars.len(),
                    chars@ == s@,
                    forall|k: int| at <= k < end ==> !char_is_whitespace(s@[k]),
                decreases chars.len() - end,
            {
                end += 1;
            }
            let word = s.substring_char(at, end).to_owned();
            proof {
                words_take_word(s@, at as int, end as int);
            }
            found.push(word);
            at = end;
        }
    }
    found
}

} // verus!
