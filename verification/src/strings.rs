//! Small string-building helpers shared by the error messages.

use vstd::prelude::*;
use vstd::string::*;

verus! {

/// The ASCII digit for `d`, which must be below ten.
pub open spec fn digit_char(d: int) -> char {
    ((d + 48) as u8) as char
}

/// The decimal spelling of `n`, most significant digit first, no sign.
pub open spec fn decimal(n: nat) -> Seq<char>
    decreases n,
{
    if n < 10 {
        seq![digit_char(n as int)]
    } else {
        decimal(n / 10).push(digit_char((n % 10) as int))
    }
}

/// A signed decimal spelling: a `-` before the magnitude of a negative number.
pub open spec fn signed_decimal(n: int) -> Seq<char> {
    if n < 0 {
        seq!['-'] + decimal((-n) as nat)
    } else {
        decimal(n as nat)
    }
}

/// Appends one character to a string: std's `String::push`.
#[verifier::external_body]
pub(crate) fn push_char(s: &mut String, c: char)
    ensures
        final(s)@ == old(s)@.push(c),
{
    s.push(c);
}

/// The decimal spelling of an unsigned number.
pub fn decimal_string(n: u64) -> (s: String)
    ensures
        s@ == decimal(n as nat),
    decreases n,
{
    if n < 10 {
        let mut s = String::new();
        push_char(&mut s, ((n as u8) + 48u8) as char);
        s
    } else {
        let mut s = decimal_string(n / 10);
        push_char(&mut s, (((n % 10) as u8) + 48u8) as char);
        s
    }
}

/// The octal spelling of `n`, most significant digit first.
pub open spec fn octal(n: nat) -> Seq<char>
    decreases n,
{
    if n < 8 {
        seq![digit_char(n as int)]
    } else {
        octal(n / 8).push(digit_char((n % 8) as int))
    }
}

/// The octal spelling of an unsigned number, as `{:o}` writes it.
pub fn octal_string(n: u32) -> (s: String)
    ensures
        s@ == octal(n as nat),
    decreases n,
{
    if n < 8 {
        let mut s = String::new();
        push_char(&mut s, ((n as u8) + 48u8) as char);
        s
    } else {
        let mut s = octal_string(n / 8);
        push_char(&mut s, (((n % 8) as u8) + 48u8) as char);
        s
    }
}

/// The decimal spelling of a signed number.
pub fn signed_decimal_string(n: i64) -> (s: String)
    ensures
        s@ == signed_decimal(n as int),
{
    if n < 0 {
        let magnitude: u64 = if n == i64::MIN {
            9223372036854775808u64
        } else {
            (-n) as u64
        };
        let mut s = String::from_str("-");
        let digits = decimal_string(magnitude);
        s.append(digits.as_str());
        proof {
            reveal_strlit("-");
        }
        s
    } else {
        decimal_string(n as u64)
    }
}

/// `a` followed by `b`.
pub fn concat(a: &str, b: &str) -> (s: String)
    ensures
        s@ == a@ + b@,
{
    let mut s = String::from_str(a);
    s.append(b);
    s
}

} // verus!

verus! {

/// What `String::from_utf8_lossy` makes of `bytes`: invalid sequences become
/// U+FFFD, everything else decodes as UTF-8.
pub uninterp spec fn utf8_lossy(bytes: Seq<u8>) -> Seq<char>;

/// Whether every byte is ASCII.
pub open spec fn all_ascii(bytes: Seq<u8>) -> bool {
    forall|i: int| 0 <= i < bytes.len() ==> #[trigger] bytes[i] < 128
}

/// The characters of an ASCII byte string, one per byte.
pub open spec fn ascii_chars(bytes: Seq<u8>) -> Seq<char> {
    Seq::new(bytes.len(), |i: int| bytes[i] as char)
}

/// std's `String::from_utf8_lossy`, made owned. Its result is `utf8_lossy`
/// of the bytes; ASCII input, being valid UTF-8, decodes one character per
/// byte, as the documentation promises for valid input.
#[verifier::external_body]
pub(crate) fn lossy_string(bytes: &[u8]) -> (s: String)
    ensures
        s@ == utf8_lossy(bytes@),
        all_ascii(bytes@) ==> s@ == ascii_chars(bytes@),
{
    String::from_utf8_lossy(bytes).into_owned()
}

} // verus!

verus! {

broadcast use vstd::string::group_string_axioms;

/// A printable ASCII character other than the space. No such character is
/// white space.
pub open spec fn is_graphic(c: char) -> bool {
    '!' <= c && c <= '~'
}

/// White space as `char::is_whitespace` defines it, the Unicode
/// `White_Space` property: U+0009 to U+000D, U+0020, U+0085, U+00A0,
/// U+1680, U+2000 to U+200A, U+2028, U+2029, U+202F, U+205F and U+3000.
pub open spec fn is_white_space(c: char) -> bool {
    ('\u{9}' <= c && c <= '\u{d}') || c == ' ' || c == '\u{85}' || c == '\u{a0}'
        || c == '\u{1680}' || ('\u{2000}' <= c && c <= '\u{200a}') || c == '\u{2028}'
        || c == '\u{2029}' || c == '\u{202f}' || c == '\u{205f}' || c == '\u{3000}'
}

/// `s` without its leading white space.
pub open spec fn trim_start_of(s: Seq<char>) -> Seq<char>
    decreases s.len(),
{
    if s.len() > 0 && is_white_space(s[0]) {
        trim_start_of(s.skip(1))
    } else {
        s
    }
}

/// `s` without its trailing white space.
pub open spec fn trim_end_of(s: Seq<char>) -> Seq<char>
    decreases s.len(),
{
    if s.len() > 0 && is_white_space(s.last()) {
        trim_end_of(s.drop_last())
    } else {
        s
    }
}

/// `s` without leading and trailing white space, as `str::trim` cuts it.
pub open spec fn trimmed(s: Seq<char>) -> Seq<char> {
    trim_end_of(trim_start_of(s))
}

/// Text of graphic ASCII alone loses nothing to trimming.
pub proof fn lemma_graphic_text_untrimmed(s: Seq<char>)
    requires
        forall|i: int| 0 <= i < s.len() ==> #[trigger] is_graphic(s[i]),
    ensures
        trimmed(s) == s,
{
    if s.len() > 0 {
        assert(is_graphic(s[0]));
        assert(is_graphic(s[s.len() - 1]));
    }
}

/// std's `str::trim`: the text without leading and trailing white space,
/// white space being `char::is_whitespace`.
#[verifier::external_body]
pub(crate) fn trim(s: &str) -> (r: &str)
    ensures
        r@ == trimmed(s@),
{
    s.trim()
}

/// The characters of `s`, one element each.
pub fn chars_of(s: &str) -> (v: Vec<char>)
    ensures
        v@ == s@,
{
    let mut v: Vec<char> = Vec::new();
    for c in it: s.chars()
        invariant
            it.seq() == s@,
            v@ == s@.take(it.index() as int),
    {
        v.push(c);
        proof {
            assert(v@ =~= s@.take(it.index() + 1));
        }
    }
    proof {
        assert(s@.take(s@.len() as int) =~= s@);
    }
    v
}

/// Whether `s` begins with `p`.
pub open spec fn has_prefix(s: Seq<char>, p: Seq<char>) -> bool {
    p.len() <= s.len() && s.subrange(0, p.len() as int) == p
}

/// Whether `s` ends with `p`.
pub open spec fn has_suffix(s: Seq<char>, p: Seq<char>) -> bool {
    p.len() <= s.len() && s.subrange(s.len() - p.len(), s.len() as int) == p
}

/// Whether `s` begins with `p`.
pub fn starts_with(s: &str, p: &str) -> (r: bool)
    ensures
        r == has_prefix(s@, p@),
{
    let a = chars_of(s);
    let b = chars_of(p);
    if b.len() > a.len() {
        return false;
    }
    let mut i: usize = 0;
    while i < b.len()
        invariant
            a@ == s@,
            b@ == p@,
            b@.len() <= a@.len(),
            0 <= i <= b@.len(),
            forall|k: int| 0 <= k < i ==> a@[k] == b@[k],
        decreases b@.len() - i,
    {
        if a[i] != b[i] {
            assert(s@.subrange(0, p@.len() as int)[i as int] != p@[i as int]);
            return false;
        }
        i = i + 1;
    }
    assert(s@.subrange(0, p@.len() as int) =~= p@);
    true
}

/// Whether `s` ends with `p`.
pub fn ends_with(s: &str, p: &str) -> (r: bool)
    ensures
        r == has_suffix(s@, p@),
{
    let a = chars_of(s);
    let b = chars_of(p);
    if b.len() > a.len() {
        return false;
    }
    let offset = a.len() - b.len();
    let mut j: usize = offset;
    while j < a.len()
        invariant
            a@ == s@,
            b@ == p@,
            offset == a@.len() - b@.len(),
            offset <= j <= a@.len(),
            forall|k: int| offset <= k < j ==> a@[k] == b@[k - offset],
        decreases a@.len() - j,
    {
        if a[j] != b[j - offset] {
            assert(s@.subrange(offset as int, s@.len() as int)[j - offset] != p@[j - offset]);
            return false;
        }
        j = j + 1;
    }
    assert(s@.subrange(offset as int, s@.len() as int) =~= p@);
    true
}

/// Whether `n` occurs in `h`.
pub open spec fn contains_text(h: Seq<char>, n: Seq<char>) -> bool {
    exists|i: int| 0 <= i <= h.len() - n.len() && #[trigger] h.subrange(i, i + n.len()) == n
}

/// Whether `needle` occurs in `hay`.
pub fn contains(hay: &str, needle: &str) -> (r: bool)
    ensures
        r == contains_text(hay@, needle@),
{
    let h = chars_of(hay);
    let n = chars_of(needle);
    if n.len() > h.len() {
        return false;
    }
    let last = h.len() - n.len();
    let mut i: usize = 0;
    while i <= last
        invariant
            h@ == hay@,
            n@ == needle@,
            n@.len() <= h@.len(),
            last == h@.len() - n@.len(),
            0 <= i <= last + 1,
            forall|k: int| 0 <= k < i ==> #[trigger] h@.subrange(k, k + n@.len()) != n@,
        decreases last + 1 - i,
    {
        let mut j: usize = 0;
        let mut same = true;
        while j < n.len()
            invariant
                h@ == hay@,
                n@ == needle@,
                i <= last,
                n.len() <= h.len(),
                last == h.len() - n.len(),
                0 <= j <= n@.len(),
                same == (forall|k: int| 0 <= k < j ==> h@[i + k] == n@[k]),
            decreases n@.len() - j,
        {
            if h[i + j] != n[j] {
                same = false;
            }
            j = j + 1;
        }
        if same {
            assert(h@.subrange(i as int, i + n@.len()) =~= n@);
            return true;
        }
        assert(h@.subrange(i as int, i + n@.len()) != n@) by {
            let k = choose|k: int| 0 <= k < n@.len() && h@[i + k] != n@[k];
            assert(h@.subrange(i as int, i + n@.len())[k] != n@[k]);
        }
        if i == last {
            return false;
        }
        i = i + 1;
    }
    false
}

/// The order `String`'s `Ord` gives: character by character, a proper
/// prefix first.
pub open spec fn text_less(a: Seq<char>, b: Seq<char>) -> bool
    decreases a.len(),
{
    if a.len() == 0 {
        b.len() > 0
    } else if b.len() == 0 {
        false
    } else if a[0] != b[0] {
        a[0] < b[0]
    } else {
        text_less(a.skip(1), b.skip(1))
    }
}

/// No text comes before itself.
pub proof fn lemma_text_less_irreflexive(a: Seq<char>)
    ensures
        !text_less(a, a),
    decreases a.len(),
{
    if a.len() > 0 {
        lemma_text_less_irreflexive(a.skip(1));
    }
}

/// The order is transitive.
pub proof fn lemma_text_less_transitive(a: Seq<char>, b: Seq<char>, c: Seq<char>)
    requires
        text_less(a, b),
        text_less(b, c),
    ensures
        text_less(a, c),
    decreases a.len(),
{
    if a.len() > 0 && b.len() > 0 && c.len() > 0 && a[0] == b[0] && b[0] == c[0] {
        lemma_text_less_transitive(a.skip(1), b.skip(1), c.skip(1));
    }
}

/// Two different texts are ordered one way or the other.
pub proof fn lemma_text_less_total(a: Seq<char>, b: Seq<char>)
    requires
        a != b,
    ensures
        text_less(a, b) || text_less(b, a),
    decreases a.len(),
{
    if a.len() > 0 && b.len() > 0 && a[0] == b[0] {
        if a.skip(1) == b.skip(1) {
            assert(a =~= seq![a[0]] + a.skip(1));
            assert(b =~= seq![b[0]] + b.skip(1));
        }
        lemma_text_less_total(a.skip(1), b.skip(1));
    } else if a.len() > 0 && b.len() > 0 {
    } else if a.len() == 0 && b.len() == 0 {
        assert(a =~= b);
    }
}

/// If `a` does not come after `b`, and `b` does not come after `c`, then
/// `a` does not come after `c`.
pub proof fn lemma_text_less_transitive_neg(a: Seq<char>, b: Seq<char>, c: Seq<char>)
    requires
        !text_less(b, a),
        !text_less(c, b),
    ensures
        !text_less(c, a),
{
    if text_less(c, a) {
        if a == b {
            assert(text_less(c, b));
        } else if b == c {
            assert(text_less(b, a));
        } else {
            lemma_text_less_total(a, b);
            lemma_text_less_total(b, c);
            lemma_text_less_transitive(a, b, c);
            lemma_text_less_transitive(c, a, c);
            lemma_text_less_irreflexive(c);
        }
    }
}

/// Whether `a` sorts before `b` as `String`s do.
pub fn less_than(a: &str, b: &str) -> (r: bool)
    ensures
        r == text_less(a@, b@),
{
    let x = chars_of(a);
    let y = chars_of(b);
    let mut i: usize = 0;
    assert(a@.skip(0) =~= a@ && b@.skip(0) =~= b@);
    while i < x.len() && i < y.len()
        invariant
            x@ == a@,
            y@ == b@,
            0 <= i <= x@.len(),
            i <= y@.len(),
            text_less(a@, b@) == text_less(a@.skip(i as int), b@.skip(i as int)),
        decreases x@.len() - i,
    {
        if x[i] != y[i] {
            assert(a@.skip(i as int)[0] == x@[i as int]);
            assert(b@.skip(i as int)[0] == y@[i as int]);
            return x[i] < y[i];
        }
        assert(a@.skip(i as int).skip(1) =~= a@.skip(i + 1));
        assert(b@.skip(i as int).skip(1) =~= b@.skip(i + 1));
        i = i + 1;
    }
    i < y.len()
}

/// A string holding exactly these characters.
pub fn string_of(v: &[char]) -> (s: String)
    ensures
        s@ == v@,
{
    let mut s = String::new();
    let mut i: usize = 0;
    while i < v.len()
        invariant
            0 <= i <= v@.len(),
            s@ == v@.take(i as int),
        decreases v@.len() - i,
    {
        push_char(&mut s, v[i]);
        i = i + 1;
        proof {
            assert(s@ =~= v@.take(i as int));
        }
    }
    proof {
        assert(v@.take(v@.len() as int) =~= v@);
    }
    s
}

/// The lower-case form of an ASCII capital; every other character is itself.
pub open spec fn lower_char(c: char) -> char {
    if 'A' <= c && c <= 'Z' {
        ((c as u8) + 32) as char
    } else {
        c
    }
}

/// `s` with ASCII capitals lowered, as `str::to_ascii_lowercase` does.
pub open spec fn ascii_lower(s: Seq<char>) -> Seq<char> {
    Seq::new(s.len(), |i: int| lower_char(s[i]))
}

/// The ASCII-lowercase form of `s`.
pub fn to_ascii_lowercase(s: &str) -> (r: String)
    ensures
        r@ == ascii_lower(s@),
{
    let mut r = String::new();
    for c in it: s.chars()
        invariant
            it.seq() == s@,
            r@ == ascii_lower(s@.take(it.index() as int)),
    {
        let lowered = if 'A' <= c && c <= 'Z' {
            ((c as u8) + 32u8) as char
        } else {
            c
        };
        push_char(&mut r, lowered);
        proof {
            assert(r@ =~= ascii_lower(s@.take(it.index() + 1)));
        }
    }
    proof {
        assert(s@.take(s@.len() as int) =~= s@);
    }
    r
}

/// Whether two strings hold the same characters.
pub fn same_text(a: &str, b: &str) -> (r: bool)
    ensures
        r == (a@ == b@),
{
    let x = chars_of(a);
    let y = chars_of(b);
    if x.len() != y.len() {
        return false;
    }
    let mut i: usize = 0;
    while i < x.len()
        invariant
            x@ == a@,
            y@ == b@,
            x@.len() == y@.len(),
            0 <= i <= x@.len(),
            forall|j: int| 0 <= j < i ==> x@[j] == y@[j],
        decreases x@.len() - i,
    {
        if x[i] != y[i] {
            return false;
        }
        i = i + 1;
    }
    proof {
        assert(a@ =~= b@);
    }
    true
}

} // verus!

verus! {

/// The items with `sep` between each adjacent pair.
pub open spec fn joined(items: Seq<Seq<char>>, sep: Seq<char>) -> Seq<char>
    decreases items.len(),
{
    if items.len() == 0 {
        Seq::empty()
    } else if items.len() == 1 {
        items[0]
    } else {
        joined(items.drop_last(), sep) + sep + items.last()
    }
}

/// Join string slices with a separator.
pub fn join_strs(items: &Vec<&str>, sep: &str) -> (s: String)
    ensures
        s@ == joined(items.deep_view(), sep@),
{
    let mut s = String::new();
    let mut i: usize = 0;
    while i < items.len()
        invariant
            0 <= i <= items@.len(),
            s@ == joined(items.deep_view().take(i as int), sep@),
        decreases items@.len() - i,
    {
        if i > 0 {
            s.append(sep);
        }
        s.append(items[i]);
        i = i + 1;
        proof {
            let t = items.deep_view().take(i as int);
            assert(t.drop_last() =~= items.deep_view().take(i - 1));
            if i == 1 {
                assert(s@ =~= joined(t, sep@));
            }
        }
    }
    proof {
        assert(items.deep_view().take(items@.len() as int) =~= items.deep_view());
    }
    s
}

/// Join owned strings with a separator.
pub fn join_strings(items: &Vec<String>, sep: &str) -> (s: String)
    ensures
        s@ == joined(items.deep_view(), sep@),
{
    let mut s = String::new();
    let mut i: usize = 0;
    while i < items.len()
        invariant
            0 <= i <= items@.len(),
            s@ == joined(items.deep_view().take(i as int), sep@),
        decreases items@.len() - i,
    {
        if i > 0 {
            s.append(sep);
        }
        s.append(items[i].as_str());
        i = i + 1;
        proof {
            let t = items.deep_view().take(i as int);
            assert(t.drop_last() =~= items.deep_view().take(i - 1));
            if i == 1 {
                assert(s@ =~= joined(t, sep@));
            }
        }
    }
    proof {
        assert(items.deep_view().take(items@.len() as int) =~= items.deep_view());
    }
    s
}

/// `base` with `component` appended as a further path component: a `/`
/// goes between them unless `base` is empty or already ends in one.
pub open spec fn path_join(base: Seq<char>, component: Seq<char>) -> Seq<char> {
    if base.len() == 0 || base.last() == '/' {
        base + component
    } else {
        base + seq!['/'] + component
    }
}

/// std's `Path::join`, read back as text. As `PathBuf::push` documents it on
/// Unix, an absolute component (one starting with `/`) replaces the path;
/// otherwise a `/` is added between them unless `base` is empty or already
/// ends in one. Text in, text out, so nothing is lost in reading it back.
#[verifier::external_body]
pub(crate) fn join_path(base: &str, component: &str) -> (p: String)
    ensures
        component@.len() > 0 && component@[0] == '/' ==> p@ == component@,
        !(component@.len() > 0 && component@[0] == '/') ==> p@ == path_join(base@, component@),
{
    std::path::Path::new(base).join(component).to_string_lossy().into_owned()
}

} // verus!

verus! {

/// How `{:?}` quotes a string.
pub uninterp spec fn debug_quoted(s: Seq<char>) -> Seq<char>;

/// std's `Debug` formatting of a string slice, `format!("{:?}", s)`: the
/// string in double quotes with escapes; printable ASCII other than `"` and
/// `\` stands for itself.
#[verifier::external_body]
pub(crate) fn debug_str(s: &str) -> (r: String)
    ensures
        r@ == debug_quoted(s@),
        (forall|i: int|
            0 <= i < s@.len() ==> is_graphic(#[trigger] s@[i]) && s@[i] != '"' && s@[i] != '\\')
            ==> r@ == seq!['"'] + s@ + seq!['"'],
{
    format!("{s:?}")
}

/// The value of a run of decimal digits.
pub open spec fn digits_value(d: Seq<char>) -> int
    decreases d.len(),
{
    if d.len() == 0 {
        0
    } else {
        digits_value(d.drop_last()) * 10 + (d.last() as int - 48)
    }
}

/// An ASCII digit.
pub open spec fn is_digit(c: char) -> bool {
    '0' <= c && c <= '9'
}

/// Whether every character is an ASCII digit.
pub open spec fn all_digits(d: Seq<char>) -> bool {
    forall|i: int| 0 <= i < d.len() ==> #[trigger] is_digit(d[i])
}

/// The text after an optional leading `+`.
pub open spec fn unsigned_digits(s: Seq<char>) -> Seq<char> {
    if s.len() > 0 && s[0] == '+' {
        s.skip(1)
    } else {
        s
    }
}

/// What an unsigned integer's `from_str` reads: an optional `+`, then one
/// or more digits whose value is at most `max`.
pub open spec fn unsigned_of_text(s: Seq<char>, max: int) -> Option<int> {
    let d = unsigned_digits(s);
    if d.len() == 0 || !all_digits(d) {
        None
    } else if digits_value(d) > max {
        None
    } else {
        Some(digits_value(d))
    }
}

proof fn lemma_digits_value_nonnegative(d: Seq<char>)
    requires
        all_digits(d),
    ensures
        digits_value(d) >= 0,
    decreases d.len(),
{
    if d.len() > 0 {
        assert forall|i: int| 0 <= i < d.drop_last().len() implies #[trigger] is_digit(
            d.drop_last()[i],
        ) by {
            assert(d.drop_last()[i] == d[i]);
        }
        lemma_digits_value_nonnegative(d.drop_last());
        assert(is_digit(d[d.len() - 1]));
    }
}

/// Read an unsigned number no larger than `max`, as `u8::from_str`,
/// `u64::from_str` and their kin do.
#[verifier::loop_isolation(false)]
pub fn parse_unsigned(input: &str, max: u64) -> (r: Option<u64>)
    ensures
        match unsigned_of_text(input@, max as int) {
            Some(v) => r matches Some(x) && x as int == v,
            None => r is None,
        },
{
    let s = chars_of(input);
    let start: usize = if s.len() > 0 && s[0] == '+' {
        1
    } else {
        0
    };
    let ghost d = unsigned_digits(s@);
    assert(d =~= s@.skip(start as int));
    if s.len() == start {
        return None;
    }
    let limit: u128 = max as u128 + 1;
    let mut value: u128 = 0;
    let mut i = start;
    while i < s.len()
        invariant
            start <= i <= s@.len(),
            d == s@.skip(start as int),
            limit == max + 1,
            forall|j: int| start <= j < i ==> #[trigger] is_digit(s@[j]),
            value == if digits_value(s@.subrange(start as int, i as int)) <= max {
                digits_value(s@.subrange(start as int, i as int))
            } else {
                limit as int
            },
        decreases s@.len() - i,
    {
        let c = s[i];
        if !('0' <= c && c <= '9') {
            assert(d[i - start] == c);
            assert(!is_digit(d[i - start]));
            assert(!all_digits(d));
            return None;
        }
        let ghost prefix = s@.subrange(start as int, i as int);
        let ghost next = s@.subrange(start as int, i + 1);
        assert(next.drop_last() =~= prefix);
        assert forall|j: int| 0 <= j < prefix.len() implies #[trigger] is_digit(prefix[j]) by {
            assert(prefix[j] == s@[start + j]);
        }
        proof {
            lemma_digits_value_nonnegative(prefix);
        }
        let digit = ((c as u32) - 48) as u128;
        if value >= limit {
            value = limit;
        } else {
            value = value * 10 + digit;
            if value >= limit {
                value = limit;
            }
        }
        i = i + 1;
    }
    assert(s@.subrange(start as int, s@.len() as int) =~= d);
    assert forall|j: int| 0 <= j < d.len() implies #[trigger] is_digit(d[j]) by {
        assert(d[j] == s@[start + j]);
    }
    if value >= limit {
        None
    } else {
        Some(value as u64)
    }
}

} // verus!
