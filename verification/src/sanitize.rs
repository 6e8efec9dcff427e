//! Transliteration of common Unicode into the printable ASCII the bar draws.
//!
//! Display text must be printable ASCII because the fonts are bitmap ASCII. A
//! build notification that fails because of a smart quote is a terrible
//! experience, so the CLI fixes what it can and reports that it did.

use vstd::prelude::*;
use vstd::string::*;

use crate::strings::push_char;
use crate::values::is_printable;

verus! {

broadcast use vstd::string::group_string_axioms;

/// The result of sanitizing, and whether anything was altered.
#[derive(Debug, Clone, PartialEq, Eq)]
pub struct Sanitized {
    pub text: String,
    pub changed: bool,
}

/// A quotation mark or prime that becomes `'`.
pub open spec fn is_single_quote(c: char) -> bool {
    c == '\u{2018}' || c == '\u{2019}' || c == '\u{201a}' || c == '\u{2032}'
}

/// A quotation mark or double prime that becomes `"`.
pub open spec fn is_double_quote(c: char) -> bool {
    c == '\u{201c}' || c == '\u{201d}' || c == '\u{201e}' || c == '\u{2033}'
}

/// A hyphen, dash or minus sign that becomes `-`.
pub open spec fn is_dash(c: char) -> bool {
    ('\u{2010}' <= c && c <= '\u{2015}') || c == '\u{2212}'
}

/// Whitespace that becomes a plain space. The display is one line, so a
/// newline is more useful as a space than as nothing.
pub open spec fn is_spacing(c: char) -> bool {
    c == '\u{00a0}' || c == '\u{2007}' || c == '\u{202f}' || c == '\u{2009}' || c == '\t' || c
        == '\n' || c == '\r'
}

/// What one character becomes: itself when printable, an ASCII stand-in for
/// the punctuation and spacing above, nothing for anything else.
pub open spec fn transliterate(c: char) -> Seq<char> {
    if is_printable(c) {
        seq![c]
    } else if is_single_quote(c) {
        seq!['\'']
    } else if is_double_quote(c) {
        seq!['"']
    } else if is_dash(c) {
        seq!['-']
    } else if is_spacing(c) {
        seq![' ']
    } else if c == '\u{2026}' {
        seq!['.', '.', '.']
    } else if c == '\u{2022}' {
        seq!['*']
    } else {
        Seq::empty()
    }
}

/// The text, each character transliterated in turn.
pub open spec fn ascii_text(s: Seq<char>) -> Seq<char>
    decreases s.len(),
{
    if s.len() == 0 {
        Seq::empty()
    } else {
        ascii_text(s.drop_last()) + transliterate(s.last())
    }
}

/// Whether every character is printable ASCII.
pub open spec fn all_printable(s: Seq<char>) -> bool {
    forall|i: int| 0 <= i < s.len() ==> #[trigger] is_printable(s[i])
}

/// Transliterate `input` into printable ASCII, dropping what cannot be
/// mapped. `changed` is set exactly when some character was not printable
/// ASCII already.
pub fn to_ascii(input: &str) -> (r: Sanitized)
    ensures
        r.text@ == ascii_text(input@),
        r.changed == !all_printable(input@),
{
    let mut text = String::new();
    let mut changed = false;
    let ghost s = input@;
    for character in it: input.chars()
        invariant
            it.seq() == s,
            text@ == ascii_text(s.take(it.index() as int)),
            changed == !all_printable(s.take(it.index() as int)),
    {
        let ghost i = it.index() as int;
        proof {
            assert(character == s[i]);
        }
        if ' ' <= character && character <= '~' {
            push_char(&mut text, character);
        } else if character == '\u{2018}' || character == '\u{2019}' || character == '\u{201a}'
            || character == '\u{2032}' {
            push_char(&mut text, '\'');
            changed = true;
        } else if character == '\u{201c}' || character == '\u{201d}' || character == '\u{201e}'
            || character == '\u{2033}' {
            push_char(&mut text, '"');
            changed = true;
        } else if ('\u{2010}' <= character && character <= '\u{2015}') || character == '\u{2212}' {
            push_char(&mut text, '-');
            changed = true;
        } else if character == '\u{00a0}' || character == '\u{2007}' || character == '\u{202f}'
            || character == '\u{2009}' || character == '\t' || character == '\n' || character
            == '\r' {
            push_char(&mut text, ' ');
            changed = true;
        } else if character == '\u{2026}' {
            push_char(&mut text, '.');
            push_char(&mut text, '.');
            push_char(&mut text, '.');
            changed = true;
        } else if character == '\u{2022}' {
            push_char(&mut text, '*');
            changed = true;
        } else {
            changed = true;
        }
        proof {
            let prefix = s.take(i + 1);
            assert(prefix.drop_last() =~= s.take(i));
            assert(prefix.last() == character);
            assert(text@ =~= ascii_text(prefix));
            if all_printable(prefix) {
                assert(is_printable(prefix[i]));
                assert forall|j: int| 0 <= j < i implies #[trigger] is_printable(s.take(i)[j]) by {
                    assert(s.take(i)[j] == prefix[j]);
                }
            }
            if !all_printable(s.take(i)) {
                let j = choose|j: int| 0 <= j < i && !is_printable(#[trigger] s.take(i)[j]);
                assert(prefix[j] == s.take(i)[j]);
            }
        }
    }
    proof {
        assert(s.take(s.len() as int) =~= s);
    }
    Sanitized { text, changed }
}

/// Sanitizing works character by character: the text of two pieces put
/// together is the text of each, put together.
proof fn lemma_ascii_text_concat(a: Seq<char>, b: Seq<char>)
    ensures
        ascii_text(a + b) == ascii_text(a) + ascii_text(b),
    decreases b.len(),
{
    if b.len() == 0 {
        assert(a + b =~= a);
        assert(ascii_text(a) + ascii_text(b) =~= ascii_text(a));
    } else {
        lemma_ascii_text_concat(a, b.drop_last());
        assert((a + b).drop_last() =~= a + b.drop_last());
        assert((a + b).last() == b.last());
        assert(ascii_text(a + b) =~= ascii_text(a) + ascii_text(b));
    }
}

/// Punctuation the bitmap fonts lack is spelled in ASCII where it stands,
/// and printable ASCII stays as it is: every hyphen and dash (U+2010 to
/// U+2015) and the minus sign U+2212 becomes `-`, so a negative number keeps
/// its sign; curly single quotes and the prime become `'`; curly double
/// quotes and the double prime become `"`; the ellipsis becomes `...`; and
/// the text around the character is sanitized as if it stood alone.
pub proof fn lemma_punctuation_is_spelled(before: Seq<char>, c: char, after: Seq<char>)
    ensures
        ('\u{2010}' <= c && c <= '\u{2015}') || c == '\u{2212}' ==> ascii_text(before + seq![c] + after)
            == ascii_text(before) + seq!['-'] + ascii_text(after),
        c == '\u{2018}' || c == '\u{2019}' || c == '\u{201a}' || c == '\u{2032}' ==> ascii_text(
            before + seq![c] + after,
        ) == ascii_text(before) + seq!['\''] + ascii_text(after),
        c == '\u{201c}' || c == '\u{201d}' || c == '\u{201e}' || c == '\u{2033}' ==> ascii_text(
            before + seq![c] + after,
        ) == ascii_text(before) + seq!['"'] + ascii_text(after),
        c == '\u{2026}' ==> ascii_text(before + seq![c] + after) == ascii_text(before) + seq![
            '.',
            '.',
            '.',
        ] + ascii_text(after),
        ' ' <= c && c <= '~' ==> ascii_text(before + seq![c] + after) == ascii_text(before)
            + seq![c] + ascii_text(after),
{
    lemma_ascii_text_concat(before + seq![c], after);
    lemma_ascii_text_concat(before, seq![c]);
    let one = seq![c];
    assert(one.drop_last() =~= Seq::<char>::empty());
    assert(one.last() == c);
    assert(ascii_text(Seq::<char>::empty()) == Seq::<char>::empty());
    assert(ascii_text(one) == ascii_text(one.drop_last()) + transliterate(c));
    assert(ascii_text(one) =~= transliterate(c));
}

/// Text that is already printable ASCII passes through unchanged.
pub proof fn lemma_printable_text_is_kept(s: Seq<char>)
    requires
        all_printable(s),
    ensures
        ascii_text(s) == s,
    decreases s.len(),
{
    if s.len() > 0 {
        assert forall|i: int| 0 <= i < s.drop_last().len() implies #[trigger] is_printable(
            s.drop_last()[i],
        ) by {
            assert(s.drop_last()[i] == s[i]);
        }
        lemma_printable_text_is_kept(s.drop_last());
        assert(is_printable(s[s.len() - 1]));
        assert(s =~= s.drop_last() + seq![s.last()]);
    }
}

/// Whatever goes in, only printable ASCII comes out.
pub proof fn lemma_output_is_printable(s: Seq<char>)
    ensures
        all_printable(ascii_text(s)),
    decreases s.len(),
{
    if s.len() > 0 {
        lemma_output_is_printable(s.drop_last());
        let head = ascii_text(s.drop_last());
        let tail = transliterate(s.last());
        assert forall|i: int| 0 <= i < (head + tail).len() implies #[trigger] is_printable(
            (head + tail)[i],
        ) by {
            if i < head.len() {
                assert((head + tail)[i] == head[i]);
            } else {
                assert((head + tail)[i] == tail[i - head.len()]);
            }
        }
    }
}

/// Sanitizing is idempotent: a second pass changes nothing and reports no
/// change.
pub proof fn lemma_sanitize_idempotent(s: Seq<char>)
    ensures
        ascii_text(ascii_text(s)) == ascii_text(s),
        all_printable(ascii_text(s)),
{
    lemma_output_is_printable(s);
    lemma_printable_text_is_kept(ascii_text(s));
}

} // verus!
