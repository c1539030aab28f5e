//! The text over which a tag computes its authentication tag.
//!
//! The text is configured as a template. Before a tag is checked, each place
//! where the template says `ENCPiccData` is filled with the encrypted
//! identity block, and then each place where the result says
//! `SDMEncFileData` with the encrypted message, both as they arrived.

use vstd::prelude::*;
use vstd::string::*;

verus! {

/// `text` with every occurrence of `placeholder` replaced by `value`.
/// Occurrences are taken from the left and do not overlap; what was put in
/// is not searched again. An empty placeholder occurs nowhere.
pub open spec fn substituted(text: Seq<char>, placeholder: Seq<char>, value: Seq<char>) -> Seq<
    char,
>
    decreases text.len(),
{
    if placeholder.len() == 0 || text.len() < placeholder.len() {
        text
    } else if text.subrange(0, placeholder.len() as int) == placeholder {
        value + substituted(
            text.subrange(placeholder.len() as int, text.len() as int),
            placeholder,
            value,
        )
    } else {
        seq![text[0]] + substituted(text.subrange(1, text.len() as int), placeholder, value)
    }
}

/// The placeholder for the encrypted identity block.
pub open spec fn picc_placeholder() -> Seq<char> {
    "ENCPiccData"@
}

/// The placeholder for the encrypted message.
pub open spec fn file_placeholder() -> Seq<char> {
    "SDMEncFileData"@
}

/// The template `input_string` filled in with the identity block
/// `picc_data` and the message `enc_data`.
pub open spec fn formatted(input_string: Seq<char>, picc_data: Seq<char>, enc_data: Seq<char>) -> Seq<
    char,
> {
    substituted(
        substituted(input_string, picc_placeholder(), picc_data),
        file_placeholder(),
        enc_data,
    )
}

/// The symbols of `text`, one by one.
fn chars_of(text: &str) -> (chars: Vec<char>)
    ensures
        chars@ == text@,
{
    let mut chars: Vec<char> = Vec::new();
    for c in it: text.chars()
        invariant
            it.seq() == text@,
            chars@ == it.seq().take(it.index() as int),
    {
        chars.push(c);
        assert(chars@ =~= it.seq().take(it.index() + 1));
    }
    assert(chars@ =~= text@);
    chars
}

/// Whether `pattern` stands in `chars` at place `at`.
fn occurs_at(chars: &Vec<char>, pattern: &Vec<char>, at: usize) -> (occurs: bool)
    requires
        at + pattern@.len() <= chars@.len(),
    ensures
        occurs == (chars@.subrange(at as int, at + pattern@.len()) == pattern@),
{
    let ghost window = chars@.subrange(at as int, at + pattern@.len());
    let n = chars.len();
    let mut k: usize = 0;
    while k < pattern.len()
        invariant
            k <= pattern@.len(),
            at + pattern@.len() <= chars@.len() == n,
            window == chars@.subrange(at as int, at + pattern@.len()),
            forall|j: int| 0 <= j < k ==> window[j] == pattern@[j],
        decreases pattern@.len() - k,
    {
        if chars[at + k] != pattern[k] {
            assert(window[k as int] != pattern@[k as int]);
            return false;
        }
        k += 1;
    }
    assert(window =~= pattern@);
    true
}

/// One step of [`substituted`] on the rest of a text that begins at `at`.
proof fn lemma_substituted_step(
    text: Seq<char>,
    placeholder: Seq<char>,
    value: Seq<char>,
    at: int,
)
    requires
        0 <= at,
        placeholder.len() > 0,
        at + placeholder.len() <= text.len(),
    ensures
        substituted(text.subrange(at, text.len() as int), placeholder, value) == if text.subrange(
            at,
            at + placeholder.len(),
        ) == placeholder {
            value + substituted(
                text.subrange(at + placeholder.len(), text.len() as int),
                placeholder,
                value,
            )
        } else {
            seq![text[at]] + substituted(text.subrange(at + 1, text.len() as int), placeholder, value)
        },
{
    let rest = text.subrange(at, text.len() as int);
    let m = placeholder.len() as int;
    assert(rest.subrange(0, m) =~= text.subrange(at, at + m));
    assert(rest.subrange(m, rest.len() as int) =~= text.subrange(at + m, text.len() as int));
    assert(rest.subrange(1, rest.len() as int) =~= text.subrange(at + 1, text.len() as int));
    assert(rest[0] == text[at]);
}

/// Replaces every occurrence of `placeholder` in `text` by `value`, from
/// the left and without overlap.
pub fn substitute(text: &str, placeholder: &str, value: &str) -> (filled: String)
    ensures
        filled@ == substituted(text@, placeholder@, value@),
{
    let chars = chars_of(text);
    let pattern = chars_of(placeholder);
    let n = chars.len();
    let m = pattern.len();
    if m == 0 || n < m {
        return String::from_str(text);
    }
    let ghost whole = substituted(text@, placeholder@, value@);
    let mut filled = String::new();
    let mut kept: usize = 0;
    let mut at: usize = 0;
    assert(text@.subrange(0, n as int) =~= text@);
    while at <= n - m
        invariant
            kept <= at <= n,
            0 < m <= n,
            n == text@.len(),
            m == placeholder@.len(),
            chars@ == text@,
            pattern@ == placeholder@,
            whole == substituted(text@, placeholder@, value@),
            filled@ + text@.subrange(kept as int, at as int) + substituted(
                text@.subrange(at as int, n as int),
                placeholder@,
                value@,
            ) == whole,
        decreases n - at,
    {
        proof {
            lemma_substituted_step(text@, placeholder@, value@, at as int);
        }
        let ghost before = filled@;
        let ghost pending = text@.subrange(kept as int, at as int);
        if occurs_at(&chars, &pattern, at) {
            filled.append(text.substring_char(kept, at));
            filled.append(value);
            at += m;
            kept = at;
            assert(filled@ + text@.subrange(kept as int, at as int) + substituted(
                text@.subrange(at as int, n as int),
                placeholder@,
                value@,
            ) =~= before + pending + (value@ + substituted(
                text@.subrange(at as int, n as int),
                placeholder@,
                value@,
            )));
        } else {
            at += 1;
            assert(filled@ + text@.subrange(kept as int, at as int) + substituted(
                text@.subrange(at as int, n as int),
                placeholder@,
                value@,
            ) =~= before + pending + (seq![text@[at - 1]] + substituted(
                text@.subrange(at as int, n as int),
                placeholder@,
                value@,
            )));
        }
    }
    let ghost before = filled@;
    filled.append(text.substring_char(kept, n));
    assert(filled@ =~= before + text@.subrange(kept as int, at as int) + text@.subrange(
        at as int,
        n as int,
    ));
    filled
}

/// Fills the template `input_string` in: first `picc_data` for each
/// `ENCPiccData`, then `enc_data` for each `SDMEncFileData` in what that
/// gave.
pub fn formatter(input_string: &str, picc_data: &str, enc_data: &str) -> (text: String)
    ensures
        text@ == formatted(input_string@, picc_data@, enc_data@),
{
    let with_picc = substitute(input_string, "ENCPiccData", picc_data);
    substitute(with_picc.as_str(), "SDMEncFileData", enc_data)
}

} // verus!
