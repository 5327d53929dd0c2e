//! The text of a buffer, held in a `ropey::Rope`, and the line structure
//! that the editor reads from it. Ropey is built here without its optional
//! line-break features, so a line break is exactly the character `'\n'`.
use ropey::Rope;
use vstd::prelude::*;

verus! {

#[verifier::external_type_specification]
#[verifier::external_body]
pub struct ExRope(Rope);

/// The characters that a rope holds.
pub uninterp spec fn rope_text(r: Rope) -> Seq<char>;

/// The number of line breaks in `s`.
pub open spec fn newline_count(s: Seq<char>) -> nat
    decreases s.len(),
{
    if s.len() == 0 {
        0
    } else if s.last() == '\n' {
        newline_count(s.drop_last()) + 1
    } else {
        newline_count(s.drop_last())
    }
}

/// The number of lines of `s`: one more than its line breaks.
pub open spec fn line_count(s: Seq<char>) -> nat {
    newline_count(s) + 1
}

/// The index of the first character of line `i` of `s`, lines counted from
/// zero; `s.len()` for the line after the last.
pub open spec fn line_start(s: Seq<char>, i: nat) -> nat
    decreases s.len(),
{
    if i == 0 || s.len() == 0 {
        0
    } else if s[0] == '\n' {
        1 + line_start(s.drop_first(), (i - 1) as nat)
    } else {
        1 + line_start(s.drop_first(), i)
    }
}

/// The number of characters of line `i` of `s`, its line break included;
/// zero for a line that `s` does not have.
pub open spec fn line_len(s: Seq<char>, i: nat) -> nat {
    if i < line_count(s) {
        (line_start(s, i + 1) - line_start(s, i)) as nat
    } else {
        0
    }
}

pub proof fn lemma_line_start_bounded(s: Seq<char>, i: nat)
    ensures
        line_start(s, i) <= s.len(),
    decreases s.len(),
{
    if i != 0 && s.len() != 0 {
        if s[0] == '\n' {
            lemma_line_start_bounded(s.drop_first(), (i - 1) as nat);
        } else {
            lemma_line_start_bounded(s.drop_first(), i);
        }
    }
}

pub proof fn lemma_line_start_monotonic(s: Seq<char>, i: nat, j: nat)
    requires
        i <= j,
    ensures
        line_start(s, i) <= line_start(s, j),
    decreases s.len(),
{
    if i != 0 && s.len() != 0 {
        if s[0] == '\n' {
            lemma_line_start_monotonic(s.drop_first(), (i - 1) as nat, (j - 1) as nat);
        } else {
            lemma_line_start_monotonic(s.drop_first(), i, j);
        }
    } else if s.len() != 0 && j != 0 {
        if s[0] == '\n' {
            lemma_line_start_bounded(s.drop_first(), (j - 1) as nat);
        } else {
            lemma_line_start_bounded(s.drop_first(), j);
        }
    }
}

/// Line `i` ends within the text: its start plus its length is at most the length of `s`.
pub proof fn lemma_line_end_bounded(s: Seq<char>, i: nat)
    ensures
        line_start(s, i) + line_len(s, i) <= s.len(),
{
    lemma_line_start_bounded(s, i);
    if i < line_count(s) {
        lemma_line_start_bounded(s, i + 1);
        lemma_line_start_monotonic(s, i, i + 1);
    }
}

/// An empty rope (`Rope::new`).
#[verifier::external_body]
pub(crate) fn rope_new() -> (r: Rope)
    ensures
        rope_text(r) == Seq::<char>::empty(),
{
    Rope::new()
}

/// A copy of a rope holds the same text (`Rope::clone`).
pub assume_specification[ <Rope as Clone>::clone ](r: &Rope) -> (c: Rope)
    ensures
        rope_text(c) == rope_text(*r),
;

/// The number of characters of a rope (`Rope::len_chars`).
#[verifier::external_body]
pub(crate) fn rope_len_chars(r: &Rope) -> (n: usize)
    ensures
        n == rope_text(*r).len(),
{
    r.len_chars()
}

/// The number of lines of a rope: its line breaks plus one (`Rope::len_lines`).
#[verifier::external_body]
pub(crate) fn rope_len_lines(r: &Rope) -> (n: usize)
    ensures
        n == line_count(rope_text(*r)),
{
    r.len_lines()
}

/// The index of the first character of a line (`Rope::line_to_char`); the
/// line after the last gives the length of the text. It panics on a later
/// line, which `requires` leaves out.
#[verifier::external_body]
pub(crate) fn rope_line_to_char(r: &Rope, line_idx: usize) -> (c: usize)
    requires
        line_idx <= line_count(rope_text(*r)),
    ensures
        c == line_start(rope_text(*r), line_idx as nat),
{
    r.line_to_char(line_idx)
}

/// The character at an index (`Rope::char`); it panics past the end, which
/// `requires` leaves out.
#[verifier::external_body]
pub(crate) fn rope_char(r: &Rope, char_idx: usize) -> (c: char)
    requires
        char_idx < rope_text(*r).len(),
    ensures
        c == rope_text(*r)[char_idx as int],
{
    r.char(char_idx)
}

/// Inserts text at a character index (`Rope::try_insert`): it succeeds, and
/// says so, exactly when the index is at most the length; otherwise the
/// rope is unchanged.
#[verifier::external_body]
pub(crate) fn rope_try_insert(r: &mut Rope, char_idx: usize, text: &str) -> (ok: bool)
    ensures
        ok == (char_idx <= rope_text(*old(r)).len()),
        ok ==> rope_text(*final(r)) == rope_text(*old(r)).take(char_idx as int) + text@
            + rope_text(*old(r)).skip(char_idx as int),
        !ok ==> rope_text(*final(r)) == rope_text(*old(r)),
{
    match r.try_insert(char_idx, text) {
        Ok(()) => true,
        Err(_) => false,
    }
}

/// Inserts a character at an index (`Rope::try_insert_char`), under the same
/// rule as `rope_try_insert`.
#[verifier::external_body]
pub(crate) fn rope_try_insert_char(r: &mut Rope, char_idx: usize, ch: char) -> (ok: bool)
    ensures
        ok == (char_idx <= rope_text(*old(r)).len()),
        ok ==> rope_text(*final(r)) == rope_text(*old(r)).take(char_idx as int).push(ch)
            + rope_text(*old(r)).skip(char_idx as int),
        !ok ==> rope_text(*final(r)) == rope_text(*old(r)),
{
    match r.try_insert_char(char_idx, ch) {
        Ok(()) => true,
        Err(_) => false,
    }
}

/// Removes the characters from `start` up to `end` (`Rope::try_remove`): it
/// succeeds, and says so, exactly when `start <= end <= len`; otherwise the
/// rope is unchanged.
#[verifier::external_body]
pub(crate) fn rope_try_remove(r: &mut Rope, start: usize, end: usize) -> (ok: bool)
    ensures
        ok == (start <= end && end <= rope_text(*old(r)).len()),
        ok ==> rope_text(*final(r)) == rope_text(*old(r)).take(start as int) + rope_text(
            *old(r),
        ).skip(end as int),
        !ok ==> rope_text(*final(r)) == rope_text(*old(r)),
{
    match r.try_remove(start..end) {
        Ok(()) => true,
        Err(_) => false,
    }
}

} // verus!
