//! Rendering a template's text.
//!
//! Substitution happens over the raw TOML text, before it is parsed, which is
//! what lets a variable appear in any field. An unescaped quote in a value
//! would corrupt the document, so every substitution is escaped for a TOML
//! basic string unless the template asks otherwise with `| safe`.

use vstd::prelude::*;
use vstd::string::*;

use crate::error::{is_usage, CliError};
use crate::strings::{
    contains, contains_text, join_strings, joined, lemma_text_less_total, lemma_text_less_transitive, less_than, push_char, text_less,
};
use crate::template::Vars;

verus! {

broadcast use vstd::string::group_string_axioms;

/// A lower-case hex digit.
pub open spec fn lower_hex_digit(n: int) -> char {
    if n < 10 {
        ((n + 48) as u8) as char
    } else {
        ((n - 10 + 97) as u8) as char
    }
}

/// How one character is written inside a TOML basic string.
pub open spec fn toml_escape_char(c: char) -> Seq<char> {
    if c == '"' {
        seq!['\\', '"']
    } else if c == '\\' {
        seq!['\\', '\\']
    } else if c == '\n' {
        seq!['\\', 'n']
    } else if c == '\t' {
        seq!['\\', 't']
    } else if c == '\r' {
        seq!['\\', 'r']
    } else if '\u{1f}' >= c {
        seq!['\\', 'u', '0', '0', lower_hex_digit((c as u8) as int / 16), lower_hex_digit((c as u8) as int % 16)]
    } else if c == '\u{7f}' {
        seq!['\\', 'u', '0', '0', '7', 'f']
    } else {
        seq![c]
    }
}

/// A character a TOML basic string may hold as it is: neither a control
/// character (U+0000 to U+001F) nor DEL (U+007F).
pub open spec fn toml_literal_char(c: char) -> bool {
    ' ' <= c && c != '\u{7f}'
}

/// A value escaped for a TOML basic string.
pub open spec fn toml_escaped(s: Seq<char>) -> Seq<char>
    decreases s.len(),
{
    if s.len() == 0 {
        Seq::empty()
    } else {
        toml_escaped(s.drop_last()) + toml_escape_char(s.last())
    }
}

/// A character escaping leaves alone.
pub open spec fn plain_char(c: char) -> bool {
    c != '"' && c != '\\' && toml_literal_char(c)
}

/// Text with no quote, no backslash and no control character comes through
/// escaping unchanged, so a value used in a numeric field is unaffected.
pub proof fn lemma_plain_text_unescaped(s: Seq<char>)
    requires
        forall|i: int| 0 <= i < s.len() ==> #[trigger] plain_char(s[i]),
    ensures
        toml_escaped(s) == s,
    decreases s.len(),
{
    if s.len() > 0 {
        assert forall|i: int| 0 <= i < s.drop_last().len() implies #[trigger] plain_char(
            s.drop_last()[i],
        ) by {
            assert(s.drop_last()[i] == s[i]);
        }
        lemma_plain_text_unescaped(s.drop_last());
        assert(plain_char(s[s.len() - 1]));
        assert(s =~= s.drop_last() + seq![s.last()]);
    }
}

/// Escaped text holds no control character, no DEL, and no quote that is
/// not preceded by a backslash: a value cannot end, or be refused inside,
/// the TOML string it is substituted into.
pub proof fn lemma_escaped_text_is_contained(s: Seq<char>)
    ensures
        forall|i: int| 0 <= i < toml_escaped(s).len() ==> toml_literal_char(#[trigger] toml_escaped(s)[i]),
        forall|i: int|
            0 <= i < toml_escaped(s).len() && #[trigger] toml_escaped(s)[i] == '"' ==> i > 0
                && toml_escaped(s)[i - 1] == '\\',
    decreases s.len(),
{
    if s.len() > 0 {
        lemma_escaped_text_is_contained(s.drop_last());
        let head = toml_escaped(s.drop_last());
        let tail = toml_escape_char(s.last());
        let c = s.last();
        assert(toml_escaped(s) == head + tail);
        assert forall|i: int| 0 <= i < (head + tail).len() implies toml_literal_char(#[trigger] (head
            + tail)[i]) by {
            if i >= head.len() {
                assert((head + tail)[i] == tail[i - head.len()]);
                if '\u{1f}' >= c && c != '\n' && c != '\t' && c != '\r' {
                    let n = (c as u8) as int;
                    assert(0 <= n / 16 < 16);
                    assert(0 <= n % 16 < 16);
                }
            } else {
                assert((head + tail)[i] == head[i]);
            }
        }
        assert forall|i: int|
            0 <= i < (head + tail).len() && #[trigger] (head + tail)[i] == '"' implies i > 0 && (
            head + tail)[i - 1] == '\\' by {
            if i >= head.len() {
                assert((head + tail)[i] == tail[i - head.len()]);
                if i - head.len() == 1 {
                    assert((head + tail)[i - 1] == tail[0]);
                }
                if '\u{1f}' >= c && c != '\n' && c != '\t' && c != '\r' {
                    let n = (c as u8) as int;
                    assert(0 <= n / 16 < 16);
                    assert(0 <= n % 16 < 16);
                }
            } else {
                assert((head + tail)[i] == head[i]);
                assert((head + tail)[i - 1] == head[i - 1]);
            }
        }
    }
}

fn push_escaped(out: &mut String, c: char)
    ensures
        final(out)@ == old(out)@ + toml_escape_char(c),
{
    if c == '"' {
        push_char(out, '\\');
        push_char(out, '"');
    } else if c == '\\' {
        push_char(out, '\\');
        push_char(out, '\\');
    } else if c == '\n' {
        push_char(out, '\\');
        push_char(out, 'n');
    } else if c == '\t' {
        push_char(out, '\\');
        push_char(out, 't');
    } else if c == '\r' {
        push_char(out, '\\');
        push_char(out, 'r');
    } else if '\u{1f}' >= c {
        let code = c as u8;
        let high = code / 16;
        let low = code % 16;
        let high_char = if high < 10 { (high + 48) as char } else { (high - 10 + 97) as char };
        let low_char = if low < 10 { (low + 48) as char } else { (low - 10 + 97) as char };
        push_char(out, '\\');
        push_char(out, 'u');
        push_char(out, '0');
        push_char(out, '0');
        push_char(out, high_char);
        push_char(out, low_char);
        assert(final(out)@ =~= old(out)@ + toml_escape_char(c));
    } else if c == '\u{7f}' {
        push_char(out, '\\');
        push_char(out, 'u');
        push_char(out, '0');
        push_char(out, '0');
        push_char(out, '7');
        push_char(out, 'f');
        assert(final(out)@ =~= old(out)@ + toml_escape_char(c));
    } else {
        push_char(out, c);
    }
}

/// Escape for a TOML basic string. Digits, letters and ordinary punctuation
/// pass through, so a value used in a numeric field is unaffected.
pub fn escape(value: &str) -> (out: String)
    ensures
        out@ == toml_escaped(value@),
        forall|i: int| 0 <= i < out@.len() ==> toml_literal_char(#[trigger] out@[i]),
{
    proof {
        lemma_escaped_text_is_contained(value@);
    }
    let mut out = String::new();
    let ghost s = value@;
    for c in it: value.chars()
        invariant
            it.seq() == s,
            out@ == toml_escaped(s.take(it.index() as int)),
    {
        let ghost i = it.index() as int;
        proof {
            assert(c == s[i]);
            assert(s.take(i + 1).drop_last() =~= s.take(i));
        }
        push_escaped(&mut out, c);
    }
    proof {
        assert(s.take(s.len() as int) =~= s);
    }
    out
}

/// Whether `source` opens a block with `keyword`, spaced or not.
pub open spec fn opens_block(source: Seq<char>, keyword: Seq<char>) -> bool {
    contains_text(source, "{% "@ + keyword) || contains_text(source, "{%"@ + keyword)
}

/// The first construct whose targets the variable analysis cannot follow.
pub open spec fn forbidden_keyword(source: Seq<char>) -> Option<Seq<char>> {
    if opens_block(source, "include"@) {
        Some("include"@)
    } else if opens_block(source, "import"@) {
        Some("import"@)
    } else if opens_block(source, "from"@) {
        Some("from"@)
    } else if opens_block(source, "extends"@) {
        Some("extends"@)
    } else {
        None
    }
}

/// Why a template using such a construct is refused.
pub open spec fn forbidden_text(name: Seq<char>, keyword: Seq<char>) -> Seq<char> {
    "template `"@ + name + "` uses `{% "@ + keyword
        + " %}`, which is not supported: templates must be self-contained single files, because the analysis that reports a template's required variables cannot see through it."@
}

fn opens(source: &str, keyword: &str) -> (r: bool)
    ensures
        r == opens_block(source@, keyword@),
{
    let mut spaced = String::from_str("{% ");
    spaced.append(keyword);
    let mut compact = String::from_str("{%");
    compact.append(keyword);
    contains(source, spaced.as_str()) || contains(source, compact.as_str())
}

fn forbidden(name: &str, keyword: &str) -> (e: CliError)
    ensures
        is_usage(e, forbidden_text(name@, keyword@)),
{
    let mut m = String::from_str("template `");
    m.append(name);
    m.append("` uses `{% ");
    m.append(keyword);
    m.append(
        " %}`, which is not supported: templates must be self-contained single files, because the analysis that reports a template's required variables cannot see through it.",
    );
    CliError::Usage(m)
}

/// Refuse the constructs the variable analysis cannot see through.
fn reject_forbidden(name: &str, source: &str) -> (res: Result<(), CliError>)
    ensures
        match forbidden_keyword(source@) {
            Some(k) => res matches Err(e) && is_usage(e, forbidden_text(name@, k)),
            None => res is Ok,
        },
{
    if opens(source, "include") {
        return Err(forbidden(name, "include"));
    }
    if opens(source, "import") {
        return Err(forbidden(name, "import"));
    }
    if opens(source, "from") {
        return Err(forbidden(name, "from"));
    }
    if opens(source, "extends") {
        return Err(forbidden(name, "extends"));
    }
    Ok(())
}

/// minijinja's error type, carried through unopened.
#[verifier::external_type_specification]
#[verifier::external_body]
pub struct ExJinjaError(minijinja::Error);

/// The texts of a minijinja error and of each `std::error::Error::source`
/// beneath it, outermost first. Nothing is claimed of the texts.
#[verifier::external_body]
fn causes(error: &minijinja::Error) -> (texts: Vec<String>) {
    std::iter::successors(Some(error as &dyn std::error::Error), |c| c.source())
        .map(|c| c.to_string())
        .collect()
}

/// The variables minijinja's `undeclared_variables(false)` finds in a
/// template, or `None` when minijinja refuses the template's syntax.
pub uninterp spec fn referenced_variables(name: Seq<char>, source: Seq<char>) -> Option<
    Set<Seq<char>>,
>;

/// minijinja: add the template under `name`, then
/// `Template::undeclared_variables(false)`. The contract claims that the
/// names come back once each and make up `referenced_variables`, and that a
/// refusal comes back as the texts of the error and its causes, outermost
/// first. The order of the names is not stated: they come from a `HashSet`.
#[verifier::external_body]
fn undeclared_variables(name: &str, source: &str) -> (r: Result<Vec<String>, Vec<String>>)
    ensures
        match referenced_variables(name@, source@) {
            Some(set) => r matches Ok(v) && v.deep_view().no_duplicates() && v.deep_view().to_set()
                == set,
            None => r is Err,
        },
{
    let mut env = minijinja::Environment::new();
    env.add_template_owned(name.to_owned(), source.to_owned())
        .and_then(|()| env.get_template(name).map(|t| t.undeclared_variables(false)))
        .map(|set| set.into_iter().collect())
        .map_err(|e| causes(&e))
}

/// What a substitution prints: in the TOML escaping mode, a value not
/// marked safe is escaped for a TOML basic string; otherwise the engine's
/// own formatting stands, shown by `None`.
pub fn substitution_text(toml_mode: bool, safe: bool, text: &str) -> (out: Option<String>)
    ensures
        match out {
            Some(s) => toml_mode && !safe && s@ == toml_escaped(text@),
            None => !toml_mode || safe,
        },
{
    if toml_mode && !safe {
        Some(escape(text))
    } else {
        None
    }
}

/// What minijinja renders from a template and its variables, with the
/// auto-escape mode named `mode` for every template, undefined variables
/// refused when `strict`, and each substitution printed as
/// `substitution_text` says; `None` when it refuses.
pub uninterp spec fn rendered_text(
    name: Seq<char>,
    source: Seq<char>,
    vars: Map<Seq<char>, Seq<char>>,
    mode: Seq<char>,
    strict: bool,
) -> Option<Seq<char>>;

/// minijinja: an `Environment` whose undefined behaviour is `Strict` or
/// `Lenient` as `strict` says, whose auto-escape callback names `mode` for
/// every template, and whose formatter prints what `substitution_text`
/// gives, else minijinja's `escape_formatter`; the template is added under
/// `name` and rendered with `vars`. The contract claims the output is
/// `rendered_text`, and that a refusal comes back as the texts of the error
/// and its causes.
#[verifier::external_body]
fn render_with_minijinja(
    name: &str,
    source: &str,
    vars: &Vars,
    mode: &'static str,
    strict: bool,
) -> (r: Result<String, Vec<String>>)
    ensures
        match rendered_text(name@, source@, vars@, mode@, strict) {
            Some(t) => r matches Ok(s) && s@ == t,
            None => r is Err,
        },
{
    let mut env = minijinja::Environment::new();
    env.set_undefined_behavior(if strict { minijinja::UndefinedBehavior::Strict } else { minijinja::UndefinedBehavior::Lenient });
    env.set_auto_escape_callback(move |_| minijinja::AutoEscape::Custom(mode));
    env.set_formatter(move |out, state, value| {
        match substitution_text(state.auto_escape() == minijinja::AutoEscape::Custom(mode), value.is_safe(), &value.to_string()) {
            Some(text) => Ok(out.write_str(&text)?),
            None => minijinja::escape_formatter(out, state, value),
        }
    });
    let context = minijinja::Value::from_iter(vars.entries.clone());
    env.add_template_owned(name.to_owned(), source.to_owned())
        .and_then(|()| env.get_template(name)?.render(context))
        .map_err(|e| causes(&e))
}

/// Whether `e` reports a template failure: `template `name`: ` and the
/// error's own words.
pub open spec fn is_template_error(e: CliError, name: Seq<char>) -> bool {
    e matches CliError::Usage(m) && m@.len() >= name.len() + 13 && m@.subrange(
        0,
        name.len() as int + 13,
    ) == "template `"@ + name + "`: "@
}

fn template_error(name: &str, causes: &Vec<String>) -> (e: CliError)
    ensures
        is_template_error(e, name@),
        e matches CliError::Usage(m) && m@ == "template `"@ + name@ + "`: "@ + joined(
            causes.deep_view(),
            ": "@,
        ),
{
    let mut m = String::from_str("template `");
    m.append(name);
    m.append("`: ");
    let detail = join_strings(causes, ": ");
    m.append(detail.as_str());
    proof {
        reveal_strlit("template `");
        reveal_strlit("`: ");
        assert(m@.subrange(0, name@.len() as int + 13) =~= "template `"@ + name@ + "`: "@);
    }
    CliError::Usage(m)
}

/// Whether a sequence of texts is in strictly increasing order.
pub open spec fn strictly_sorted(s: Seq<Seq<char>>) -> bool {
    forall|i: int, j: int| 0 <= i < j < s.len() ==> text_less(#[trigger] s[i], #[trigger] s[j])
}

/// Sort distinct texts into increasing order.
fn sort_texts(v: Vec<String>) -> (r: Vec<String>)
    requires
        v.deep_view().no_duplicates(),
    ensures
        strictly_sorted(r.deep_view()),
        r.deep_view().to_set() == v.deep_view().to_set(),
{
    let ghost all = v.deep_view();
    let mut r: Vec<String> = Vec::new();
    let mut k: usize = 0;
    while k < v.len()
        invariant
            all == v.deep_view(),
            all.no_duplicates(),
            0 <= k <= v@.len(),
            strictly_sorted(r.deep_view()),
            r.deep_view().to_set() == all.take(k as int).to_set(),
        decreases v@.len() - k,
    {
        let x = v[k].clone();
        assert(x@ == all[k as int]);
        let mut p: usize = 0;
        while p < r.len() && less_than(r[p].as_str(), x.as_str())
            invariant
                0 <= p <= r@.len(),
                forall|q: int| 0 <= q < p ==> text_less(#[trigger] r.deep_view()[q], x@),
            decreases r@.len() - p,
        {
            assert(r.deep_view()[p as int] == r@[p as int]@);
            p = p + 1;
        }
        let ghost old_r = r.deep_view();
        proof {
            assert(!old_r.contains(x@)) by {
                if old_r.contains(x@) {
                    assert(all.take(k as int).to_set().contains(x@));
                    let q = choose|q: int| 0 <= q < k && all.take(k as int)[q] == x@;
                    assert(all[q] == all[k as int]);
                }
            }
            if p < old_r.len() {
                assert(old_r[p as int] == r@[p as int]@);
                assert(!text_less(old_r[p as int], x@));
                assert(old_r[p as int] != x@);
                lemma_text_less_total(old_r[p as int], x@);
            }
        }
        r.insert(p, x);
        proof {
            let nr = r.deep_view();
            assert(nr =~= old_r.insert(p as int, x@));
            assert forall|i: int, j: int| 0 <= i < j < nr.len() implies text_less(
                #[trigger] nr[i],
                #[trigger] nr[j],
            ) by {
                if j < p {
                    assert(nr[i] == old_r[i] && nr[j] == old_r[j]);
                } else if j == p {
                    assert(nr[i] == old_r[i]);
                } else if i == p {
                    assert(nr[j] == old_r[j - 1]);
                    if j - 1 > p {
                        lemma_text_less_transitive(x@, old_r[p as int], old_r[j - 1]);
                    }
                } else if i < p {
                    assert(nr[i] == old_r[i] && nr[j] == old_r[j - 1]);
                } else {
                    assert(nr[i] == old_r[i - 1] && nr[j] == old_r[j - 1]);
                }
            }
            assert(all.take(k + 1) =~= all.take(k as int).push(x@));
            assert(nr.to_set() =~= old_r.to_set().insert(x@)) by {
                assert forall|t: Seq<char>| nr.to_set().contains(t) implies old_r.to_set().insert(
                    x@,
                ).contains(t) by {
                    let i = choose|i: int| 0 <= i < nr.len() && nr[i] == t;
                    if i < p {
                        assert(old_r[i] == t);
                    } else if i > p {
                        assert(old_r[i - 1] == t);
                    }
                }
                assert forall|t: Seq<char>| old_r.to_set().insert(x@).contains(t) implies nr.to_set().contains(
                    t,
                ) by {
                    if t == x@ {
                        assert(nr[p as int] == t);
                    } else {
                        let i = choose|i: int| 0 <= i < old_r.len() && old_r[i] == t;
                        if i < p {
                            assert(nr[i] == t);
                        } else {
                            assert(nr[i + 1] == t);
                        }
                    }
                }
            }
            let before = all.take(k as int);
            assert(before.push(x@).to_set() =~= before.to_set().insert(x@)) by {
                assert forall|t: Seq<char>| before.push(x@).to_set().contains(t) implies before.to_set().insert(
                    x@,
                ).contains(t) by {
                    let q = choose|q: int| 0 <= q < before.push(x@).len() && before.push(x@)[q] == t;
                    if q < before.len() {
                        assert(before[q] == t);
                    }
                }
                assert forall|t: Seq<char>| before.to_set().insert(x@).contains(t) implies before.push(
                    x@,
                ).to_set().contains(t) by {
                    if t == x@ {
                        assert(before.push(x@)[before.len() as int] == t);
                    } else {
                        let q = choose|q: int| 0 <= q < before.len() && before[q] == t;
                        assert(before.push(x@)[q] == t);
                    }
                }
            }
        }
        k = k + 1;
    }
    proof {
        assert(all.take(v@.len() as int) =~= all);
    }
    r
}

/// The variables `source` references, sorted. A template that opens an
/// `include`, `import`, `from` or `extends` block is refused first, since the
/// analysis cannot follow one; a template minijinja cannot read is refused
/// with minijinja's words. Over-reports rather than under-reports: a
/// variable mentioned only in a branch never taken is still listed.
pub fn analyse(name: &str, source: &str) -> (res: Result<Vec<String>, CliError>)
    ensures
        match forbidden_keyword(source@) {
            Some(k) => res matches Err(e) && is_usage(e, forbidden_text(name@, k)),
            None => match referenced_variables(name@, source@) {
                Some(set) => res matches Ok(v) && strictly_sorted(v.deep_view())
                    && v.deep_view().to_set() == set,
                None => res matches Err(e) && is_template_error(e, name@),
            },
        },
{
    reject_forbidden(name, source)?;
    match undeclared_variables(name, source) {
        Ok(found) => Ok(sort_texts(found)),
        Err(causes) => Err(template_error(name, &causes)),
    }
}

/// Render `source` with `vars`, escaping every substitution. A variable the
/// template uses but `vars` lacks is an error naming the template, not an
/// empty string.
pub fn render(name: &str, source: &str, vars: &Vars) -> (res: Result<String, CliError>)
    ensures
        match forbidden_keyword(source@) {
            Some(k) => res matches Err(e) && is_usage(e, forbidden_text(name@, k)),
            None => match rendered_text(name@, source@, vars@, "toml"@, true) {
                Some(t) => res matches Ok(s) && s@ == t,
                None => res matches Err(e) && is_template_error(e, name@),
            },
        },
{
    reject_forbidden(name, source)?;
    match render_with_minijinja(name, source, vars, "toml", true) {
        Ok(text) => Ok(text),
        Err(causes) => Err(template_error(name, &causes)),
    }
}

} // verus!
