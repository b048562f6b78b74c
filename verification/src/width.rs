//! Display width: the number of terminal columns that a character or a text
//! occupies.

use crate::text::repeat;
use unicode_width::UnicodeWidthChar;
use vstd::prelude::*;
use vstd::utf8::encode_utf8;

verus! {

/// What `unicode_width::UnicodeWidthChar::width` returns for a character. Its
/// documentation describes the result as the number of columns that the
/// character is displayed in, or `None` for a control character. The
/// contracts of this crate use it as a function of the character and suppose
/// nothing else of it.
pub uninterp spec fn unicode_char_width(c: char) -> Option<usize>;

/// Calls `unicode_width::UnicodeWidthChar::width` on `c`. Trusted: the result
/// depends on the character alone. Nothing is claimed of its value.
#[verifier::external_body]
fn unicode_width_of(c: char) -> (w: Option<usize>)
    ensures
        w == unicode_char_width(c),
{
    UnicodeWidthChar::width(c)
}

/// Printable ASCII: the characters from the space to the tilde.
pub open spec fn is_printable_ascii(c: char) -> bool {
    ' ' <= c && c <= '~'
}

/// The number of columns that a character occupies, given what the Unicode
/// tables say of it. Printable ASCII occupies one column whatever they say.
/// Any other character occupies as many columns as they give it, and none
/// where they give it no width.
pub open spec fn columns_of(c: char, unicode: Option<usize>) -> nat {
    if is_printable_ascii(c) {
        1
    } else {
        match unicode {
            Some(w) => w as nat,
            None => 0,
        }
    }
}

/// The number of columns that a character occupies.
pub open spec fn char_columns(c: char) -> nat {
    columns_of(c, unicode_char_width(c))
}

/// The number of columns that a text occupies: the sum over its characters.
pub open spec fn text_columns(s: Seq<char>) -> nat
    decreases s.len(),
{
    if s.len() == 0 {
        0
    } else {
        text_columns(s.drop_last()) + char_columns(s.last())
    }
}

/// The width of a character, given what the Unicode tables say of it.
pub fn width_from_unicode(c: char, unicode: Option<usize>) -> (w: usize)
    ensures
        w == columns_of(c, unicode),
{
    if ' ' <= c && c <= '~' {
        1
    } else {
        match unicode {
            Some(w) => w,
            None => 0,
        }
    }
}

/// The width of one character.
pub fn char_width(c: char) -> (w: usize)
    ensures
        w == char_columns(c),
{
    width_from_unicode(c, unicode_width_of(c))
}

/// A text of one character is as wide as the character.
pub proof fn lemma_text_columns_single(c: char)
    ensures
        text_columns(seq![c]) == char_columns(c),
{
    assert(seq![c].drop_last() =~= Seq::<char>::empty());
    assert(text_columns(seq![c]) == text_columns(seq![c].drop_last()) + char_columns(
        seq![c].last(),
    ));
}

/// The width of two texts set one after the other is the sum of their widths.
pub proof fn lemma_text_columns_concat(a: Seq<char>, b: Seq<char>)
    ensures
        text_columns(a + b) == text_columns(a) + text_columns(b),
    decreases b.len(),
{
    if b.len() == 0 {
        assert(a + b =~= a);
    } else {
        assert((a + b).drop_last() =~= a + b.drop_last());
        lemma_text_columns_concat(a, b.drop_last());
    }
}

/// A run of one character is as wide as the character, times its length.
pub proof fn lemma_text_columns_repeat(c: char, n: nat)
    ensures
        text_columns(repeat(c, n)) == n * char_columns(c),
    decreases n,
{
    if n == 0 {
        assert(repeat(c, n).len() == 0);
    } else {
        assert(repeat(c, n).drop_last() =~= repeat(c, (n - 1) as nat));
        assert(repeat(c, n).last() == c);
        lemma_text_columns_repeat(c, (n - 1) as nat);
        assert(n * char_columns(c) == (n - 1) * char_columns(c) + char_columns(c))
            by (nonlinear_arith);
    }
}

/// A run of spaces is as wide as it is long.
pub proof fn lemma_text_columns_spaces(n: nat)
    ensures
        text_columns(repeat(' ', n)) == n,
{
    lemma_text_columns_repeat(' ', n);
    assert(n * 1 == n) by (nonlinear_arith);
}

/// A text's width is at most `usize::MAX` columns for each of its characters.
pub proof fn lemma_text_columns_bound(s: Seq<char>)
    ensures
        text_columns(s) <= s.len() * usize::MAX,
    decreases s.len(),
{
    if s.len() > 0 {
        lemma_text_columns_bound(s.drop_last());
        assert(text_columns(s) <= (s.len() - 1) * usize::MAX + usize::MAX);
        assert((s.len() - 1) * usize::MAX + usize::MAX == s.len() * usize::MAX)
            by (nonlinear_arith);
    }
}

/// A text has at most as many characters as its UTF-8 encoding has bytes.
pub proof fn lemma_chars_at_most_bytes(s: Seq<char>)
    ensures
        s.len() <= encode_utf8(s).len(),
    decreases s.len(),
{
    if s.len() > 0 {
        lemma_chars_at_most_bytes(s.drop_first());
    }
}

/// The width of a text. The sum is kept in a `u128`: a text has at most
/// `usize::MAX` characters, each at most `usize::MAX` columns wide, so the sum
/// cannot overflow.
pub fn display_width(s: &str) -> (w: u128)
    ensures
        w == text_columns(s@),
{
    proof {
        lemma_chars_at_most_bytes(s@);
    }
    if s.as_bytes().len() == 0 {
        return 0;
    }
    let mut total: u128 = 0;
    for c in it: s.chars()
        invariant
            it.seq() == s@,
            s@.len() <= usize::MAX,
            total == text_columns(s@.take(it.index())),
    {
        proof {
            let k = it.index();
            lemma_text_columns_bound(s@.take(k));
            assert(s@.take(k + 1).drop_last() =~= s@.take(k));
            assert(k * usize::MAX <= (usize::MAX - 1) * usize::MAX) by (nonlinear_arith)
                requires
                    0 <= k <= usize::MAX - 1,
            ;
        }
        let w: usize = char_width(c);
        total = total + w as u128;
    }
    proof {
        assert(s@.take(s@.len() as int) =~= s@);
    }
    total
}

} // verus!
