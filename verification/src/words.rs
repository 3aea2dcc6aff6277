//! Numbers in words, case, and wrapped text, from `numeral`, std and `textwrap`.

use vstd::prelude::*;

use numeral::Cardinal;

use crate::text::{ascii_upper_char, is_ascii_text};

verus! {

/// The English words for `n` that `numeral` writes ("one hundred twenty-seven").
pub uninterp spec fn cardinal_text(n: u32) -> Seq<char>;

/// `numeral::Cardinal::cardinal` on a `u32`. Its result is named by `cardinal_text`.
#[verifier::external_body]
pub(crate) fn cardinal(n: u32) -> (r: String)
    ensures
        r@ == cardinal_text(n),
{
    n.cardinal()
}

/// What `str::to_uppercase` makes of a text (Unicode uppercase mapping).
pub uninterp spec fn uppercase(s: Seq<char>) -> Seq<char>;

/// `str::to_uppercase`. Its result is named by `uppercase`; the one fact stated of it is that
/// a text made only of ASCII characters is mapped character by character, `a`..`z` to
/// `A`..`Z`, as the Unicode uppercase mapping does. What it does to other characters is
/// left unsaid.
#[verifier::external_body]
pub(crate) fn to_uppercase(s: &str) -> (r: String)
    ensures
        r@ == uppercase(s@),
        is_ascii_text(s@) ==> r@ == s@.map_values(|c: char| ascii_upper_char(c)),
{
    s.to_uppercase()
}

/// The lines into which `textwrap` breaks `text` at the width `width`, the first line
/// after `initial` and the others after `subsequent`.
pub uninterp spec fn wrapped_lines(
    text: Seq<char>,
    width: usize,
    initial: Seq<char>,
    subsequent: Seq<char>,
) -> Seq<Seq<char>>;

/// `textwrap::wrap` with `Options::new(width)`, `initial_indent` and `subsequent_indent`.
/// Its result is named by `wrapped_lines`.
#[verifier::external_body]
pub(crate) fn wrap_lines(text: &str, width: usize, initial: &str, subsequent: &str) -> (r: Vec<String>)
    ensures
        r@.map_values(|s: String| s@) == wrapped_lines(text@, width, initial@, subsequent@),
{
    let options = textwrap::Options::new(width).initial_indent(initial).subsequent_indent(
        subsequent,
    );
    textwrap::wrap(text, options).into_iter().map(|c| c.into_owned()).collect()
}

} // verus!
