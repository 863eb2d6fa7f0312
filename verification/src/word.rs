//! Character classes and the word scans built on them.
//!
//! Every character falls into one of five classes, each with a bit mask. A
//! word scan walks along a line and keeps the AND of the masks it has seen; it
//! goes on for as long as taking the next character's mask in changes neither
//! that AND nor the mask. So a word is the longest run of characters of one
//! class, and a run of white space is a word of its own.

use vstd::prelude::*;

verus! {

/// Mask of an ASCII letter.
pub const ALPHABETIC: i8 = 0b0000_0001;

/// Mask of an ASCII digit.
pub const NUMERIC: i8 = 0b0000_0010;

/// Mask of an ASCII punctuation character.
pub const PUNCTUATION: i8 = 0b0000_0100;

/// Mask of any character outside the other four classes.
pub const OTHER: i8 = 0b0000_1000;

/// Mask of ASCII white space. It holds the bits of all the other classes, so
/// its AND with another class is that class and not white space: white space
/// and another class never share a run, whichever of the two comes first.
pub const WHITESPACE: i8 = 0b0000_1111;

pub open spec fn is_ascii_letter(c: char) -> bool {
    ('A' <= c && c <= 'Z') || ('a' <= c && c <= 'z')
}

pub open spec fn is_ascii_digit(c: char) -> bool {
    '0' <= c && c <= '9'
}

pub open spec fn is_ascii_punct(c: char) -> bool {
    ('!' <= c && c <= '/') || (':' <= c && c <= '@') || ('[' <= c && c <= '`') || ('{' <= c && c
        <= '~')
}

pub open spec fn is_ascii_space(c: char) -> bool {
    c == ' ' || c == '\t' || c == '\n' || c == '\x0C' || c == '\r'
}

/// `char::is_ascii_alphabetic` of std: true exactly for `'A'..='Z'` and
/// `'a'..='z'`.
pub assume_specification[ char::is_ascii_alphabetic ](c: &char) -> (r: bool)
    ensures
        r == is_ascii_letter(*c),
;

/// `char::is_ascii_alphanumeric` of std: true exactly for the ASCII letters
/// and the digits `'0'..='9'`.
pub assume_specification[ char::is_ascii_alphanumeric ](c: &char) -> (r: bool)
    ensures
        r == (is_ascii_letter(*c) || is_ascii_digit(*c)),
;

/// `char::is_ascii_punctuation` of std: true exactly for the four ASCII
/// ranges `!..=/`, `:..=@`, `` [..=` `` and `{..=~`.
pub assume_specification[ char::is_ascii_punctuation ](c: &char) -> (r: bool)
    ensures
        r == is_ascii_punct(*c),
;

/// `char::is_ascii_whitespace` of std: true exactly for space, horizontal
/// tab, line feed, form feed and carriage return.
pub assume_specification[ char::is_ascii_whitespace ](c: &char) -> (r: bool)
    ensures
        r == is_ascii_space(*c),
;

/// The class mask of a character.
pub open spec fn kind_of(c: char) -> i8 {
    if is_ascii_letter(c) {
        ALPHABETIC
    } else if is_ascii_digit(c) {
        NUMERIC
    } else if is_ascii_punct(c) {
        PUNCTUATION
    } else if is_ascii_space(c) {
        WHITESPACE
    } else {
        OTHER
    }
}

/// Classifies a character.
pub fn kind(c: char) -> (k: i8)
    ensures
        k == kind_of(c),
        is_kind(k),
{
    if c.is_ascii_alphabetic() {
        ALPHABETIC
    } else if c.is_ascii_alphanumeric() {
        NUMERIC
    } else if c.is_ascii_punctuation() {
        PUNCTUATION
    } else if c.is_ascii_whitespace() {
        WHITESPACE
    } else {
        OTHER
    }
}

/// How many characters from index `at` on, going right, are of class
/// `first`, up to the first that is not.
pub open spec fn run_right(line: Seq<char>, at: int, first: i8) -> nat
    decreases line.len() - at,
{
    if at < 0 || at >= line.len() || kind_of(line[at]) != first {
        0
    } else {
        1 + run_right(line, at + 1, first)
    }
}

/// How many characters from index `at` down, going left, are of class
/// `first`, up to the first that is not.
pub open spec fn run_left(line: Seq<char>, at: int, first: i8) -> nat
    decreases at + 1,
{
    if at < 0 || at >= line.len() || kind_of(line[at]) != first {
        0
    } else {
        1 + run_left(line, at - 1, first)
    }
}

/// Length of the word that begins at gap `x` and runs to the right: the
/// longest run of characters of the class of the character after the gap. At
/// the end of the line it is 1.
pub open spec fn word_right(line: Seq<char>, x: int) -> nat {
    if 0 <= x < line.len() {
        1 + run_right(line, x + 1, kind_of(line[x]))
    } else {
        1
    }
}

/// Length of the word that ends at gap `x` and runs to the left: the longest
/// run of characters of the class of the character before the gap. At gaps 0
/// and 1 it is 1.
pub open spec fn word_left(line: Seq<char>, x: int) -> nat {
    if 2 <= x <= line.len() {
        1 + run_left(line, x - 2, kind_of(line[x - 1]))
    } else {
        1
    }
}

/// Whether `k` is the mask of one of the five classes.
pub open spec fn is_kind(k: i8) -> bool {
    k == ALPHABETIC || k == NUMERIC || k == PUNCTUATION || k == OTHER || k == WHITESPACE
}

/// Taking a mask in leaves both the AND of the masks seen and the mask itself
/// unchanged exactly if the two are the same: a scan goes on only within one
/// class.
pub proof fn lemma_same_class(seen: i8, k: i8)
    ensures
        (seen & k == k && seen & k == seen) <==> seen == k,
{
    assert(seen & seen == seen) by (bit_vector);
}

/// The AND of white space with another class is that class, and so neither
/// white space nor zero: a run of white space never takes another class
/// along, and no other class takes white space along.
pub proof fn lemma_whitespace_apart(k: i8)
    requires
        is_kind(k),
        k != WHITESPACE,
    ensures
        WHITESPACE & k == k,
        k & WHITESPACE == k,
        WHITESPACE & k != WHITESPACE,
{
    assert(15i8 & 1i8 == 1i8 && 15i8 & 2i8 == 2i8 && 15i8 & 4i8 == 4i8 && 15i8 & 8i8 == 8i8)
        by (bit_vector);
    assert(1i8 & 15i8 == 1i8 && 2i8 & 15i8 == 2i8 && 4i8 & 15i8 == 4i8 && 8i8 & 15i8 == 8i8)
        by (bit_vector);
}

/// A run to the right never leaves the line, and all of it is of one class.
pub proof fn lemma_run_right_bound(line: Seq<char>, at: int, first: i8)
    requires
        0 <= at <= line.len(),
    ensures
        at + run_right(line, at, first) <= line.len(),
        forall|i: int| at <= i < at + run_right(line, at, first) ==> kind_of(#[trigger] line[i]) == first,
        at + run_right(line, at, first) < line.len() ==> kind_of(
            line[at + run_right(line, at, first)],
        ) != first,
    decreases line.len() - at,
{
    if at < line.len() && kind_of(line[at]) == first {
        lemma_run_right_bound(line, at + 1, first);
    }
}

/// A run to the left never leaves the line, and all of it is of one class.
pub proof fn lemma_run_left_bound(line: Seq<char>, at: int, first: i8)
    requires
        -1 <= at < line.len(),
    ensures
        run_left(line, at, first) <= at + 1,
        forall|i: int| at - run_left(line, at, first) < i <= at ==> kind_of(#[trigger] line[i]) == first,
        at - run_left(line, at, first) >= 0 ==> kind_of(line[at - run_left(line, at, first)])
            != first,
    decreases at + 1,
{
    if at >= 0 && kind_of(line[at]) == first {
        lemma_run_left_bound(line, at - 1, first);
    }
}

/// A word scan never yields 0, and a word inside the line stays inside it.
pub proof fn lemma_word_bounds(line: Seq<char>, x: int)
    ensures
        word_right(line, x) >= 1,
        word_left(line, x) >= 1,
        0 <= x < line.len() ==> x + word_right(line, x) <= line.len(),
        2 <= x <= line.len() ==> word_left(line, x) <= x,
{
    if 0 <= x < line.len() {
        lemma_run_right_bound(line, x + 1, kind_of(line[x]));
    }
    if 2 <= x <= line.len() {
        lemma_run_left_bound(line, x - 2, kind_of(line[x - 1]));
    }
}

/// A word is the longest run of one class: every character of the word is of
/// the class of its first character, and the character beyond the word, if the
/// line has one, is of another class.
pub proof fn lemma_word_is_one_class(line: Seq<char>, x: int)
    ensures
        0 <= x < line.len() ==> {
            &&& forall|i: int|
                x <= i < x + word_right(line, x) ==> kind_of(#[trigger] line[i]) == kind_of(line[x])
            &&& x + word_right(line, x) < line.len() ==> kind_of(line[x + word_right(line, x)])
                != kind_of(line[x])
        },
        2 <= x <= line.len() ==> {
            &&& forall|i: int|
                x - word_left(line, x) <= i < x ==> kind_of(#[trigger] line[i]) == kind_of(
                    line[x - 1],
                )
            &&& x - word_left(line, x) > 0 ==> kind_of(line[x - word_left(line, x) - 1]) != kind_of(
                line[x - 1],
            )
        },
{
    if 0 <= x < line.len() {
        lemma_run_right_bound(line, x + 1, kind_of(line[x]));
    }
    if 2 <= x <= line.len() {
        lemma_run_left_bound(line, x - 2, kind_of(line[x - 1]));
    }
}

/// Scans to the right from gap `x`.
pub fn scan_right(line: &Vec<char>, x: usize) -> (n: usize)
    requires
        x <= line.len(),
    ensures
        n == word_right(line@, x as int),
        n >= 1,
{
    if x == line.len() {
        return 1;
    }
    let mut offset: usize = 1;
    let seen: i8 = kind(line[x]);
    while offset + x < line.len()
        invariant
            1 <= offset,
            x + offset <= line.len(),
            word_right(line@, x as int) == offset + run_right(line@, x + offset, seen),
        decreases line.len() - offset - x,
    {
        let k = kind(line[offset + x]);
        let both = seen & k;
        proof {
            lemma_same_class(seen, k);
        }
        if both != k || both != seen {
            return offset;
        }
        offset += 1;
    }
    offset
}

/// Scans to the left from gap `x`.
pub fn scan_left(line: &Vec<char>, x: usize) -> (n: usize)
    requires
        x <= line.len(),
    ensures
        n == word_left(line@, x as int),
        n >= 1,
{
    if x == 0 || x == 1 {
        return 1;
    }
    let mut offset: usize = 1;
    let seen: i8 = kind(line[x - 1]);
    while x - offset > 0
        invariant
            1 <= offset <= x,
            x <= line.len(),
            word_left(line@, x as int) == offset + run_left(line@, x - offset - 1, seen),
        decreases x - offset,
    {
        let k = kind(line[x - offset - 1]);
        let both = seen & k;
        proof {
            lemma_same_class(seen, k);
        }
        if both != k || both != seen {
            return offset;
        }
        offset += 1;
    }
    offset
}

} // verus!
