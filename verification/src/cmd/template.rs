//! `busy template …`: where templates live, and what validating them reports.

use vstd::prelude::*;
use vstd::string::*;

use crate::error::{is_usage, CliError};
use crate::strings::{decimal, decimal_string, join_strings, joined, path_join};
use crate::template::discover;
use crate::template::validate::Report;
use crate::template::Vars;

verus! {

broadcast use vstd::string::group_string_axioms;

/// Warned once when a placeholder value had to be transliterated.
pub const SANITIZED_VARIABLE_WARNING: &'static str = "one or more template variable values contained characters the bar's bitmap-ASCII fonts cannot render (smart quotes, dashes, or similar) and were transliterated to plain ASCII";

/// Why no template directory could be chosen.
pub open spec fn no_root_text() -> Seq<char> {
    "could not determine a config directory for templates; pass --template-dir."@
}

/// The template directory: `--template-dir`, else the platform's config
/// directory; an error when there is neither.
pub fn root(flag: Option<&str>) -> (res: Result<String, CliError>)
    ensures
        flag matches Some(f) ==> res matches Ok(p) && p@ == f@,
        flag is None ==> match res {
            Ok(p) => exists|dir: Seq<char>|
                p@ == path_join(path_join(dir, "busy"@), "templates"@),
            Err(e) => is_usage(e, no_root_text()),
        },
{
    match discover::root(flag) {
        Some(path) => Ok(path),
        None => Err(
            CliError::Usage(
                String::from_str(
                    "could not determine a config directory for templates; pass --template-dir.",
                ),
            ),
        ),
    }
}

/// Every variable a template names, bound to `x`: enough to render it for
/// checking.
pub fn placeholder_vars(variables: &Vec<String>) -> (v: Vars)
    ensures
        v.wf(),
        v@ == Map::new(
            |k: Seq<char>| variables.deep_view().contains(k),
            |k: Seq<char>| "x"@,
        ),
{
    let mut v = Vars::new();
    let mut i: usize = 0;
    proof {
        reveal_strlit("x");
    }
    while i < variables.len()
        invariant
            0 <= i <= variables@.len(),
            v.wf(),
            v@ == Map::new(
                |k: Seq<char>| variables.deep_view().take(i as int).contains(k),
                |k: Seq<char>| "x"@,
            ),
        decreases variables@.len() - i,
    {
        let ghost before = v@;
        v.insert(variables[i].clone(), String::from_str("x"));
        proof {
            let t = variables.deep_view().take(i + 1);
            assert(t =~= variables.deep_view().take(i as int).push(variables@[i as int]@));
            assert(v@ =~= Map::new(|k: Seq<char>| t.contains(k), |k: Seq<char>| "x"@)) by {
                assert forall|k: Seq<char>| t.contains(k) implies v@.contains_key(k) by {
                    let q = choose|q: int| 0 <= q < t.len() && t[q] == k;
                    if q < i {
                        assert(variables.deep_view().take(i as int)[q] == k);
                    }
                }
                assert forall|k: Seq<char>| v@.contains_key(k) implies t.contains(k) by {
                    if k == variables@[i as int]@ {
                        assert(t[i as int] == k);
                    } else {
                        assert(before.contains_key(k));
                        let q = choose|q: int|
                            0 <= q < variables.deep_view().take(i as int).len()
                                && variables.deep_view().take(i as int)[q] == k;
                        assert(t[q] == k);
                    }
                }
            }
        }
        i = i + 1;
    }
    proof {
        assert(variables.deep_view().take(variables@.len() as int) =~= variables.deep_view());
    }
    v
}

/// The listing for `busy template list`: one line per template with its
/// description, then a count; or where to put some when there are none.
pub open spec fn list_text(root: Seq<char>, rows: Seq<(Seq<char>, Seq<char>)>) -> Seq<char> {
    if rows.len() == 0 {
        "no templates in "@ + root + "; run `busy template init` to write the examples"@
    } else {
        list_lines(rows) + decimal(rows.len()) + " template(s)"@
    }
}

/// One `name<TAB>description` line per template.
pub open spec fn list_lines(rows: Seq<(Seq<char>, Seq<char>)>) -> Seq<char>
    decreases rows.len(),
{
    if rows.len() == 0 {
        Seq::empty()
    } else {
        list_lines(rows.drop_last()) + rows.last().0 + "\t"@ + rows.last().1 + "\n"@
    }
}

/// The text `busy template list` prints, given each template's name and
/// description (empty when it has none).
pub fn list_report(root: &str, rows: &Vec<(String, String)>) -> (s: String)
    ensures
        s@ == list_text(root@, rows@.map_values(|r: (String, String)| (r.0@, r.1@))),
{
    let ghost all = rows@.map_values(|r: (String, String)| (r.0@, r.1@));
    if rows.len() == 0 {
        let mut s = String::from_str("no templates in ");
        s.append(root);
        s.append("; run `busy template init` to write the examples");
        return s;
    }
    let mut s = String::new();
    let mut i: usize = 0;
    while i < rows.len()
        invariant
            all == rows@.map_values(|r: (String, String)| (r.0@, r.1@)),
            0 <= i <= rows@.len(),
            s@ == list_lines(all.take(i as int)),
        decreases rows@.len() - i,
    {
        s.append(rows[i].0.as_str());
        s.append("\t");
        s.append(rows[i].1.as_str());
        s.append("\n");
        proof {
            assert(all.take(i + 1).drop_last() =~= all.take(i as int));
            assert(all.take(i + 1).last() == all[i as int]);
        }
        i = i + 1;
    }
    proof {
        assert(all.take(rows@.len() as int) =~= all);
    }
    s.append(decimal_string(rows.len() as u64).as_str());
    s.append(" template(s)");
    s
}

/// What `busy template show` prints: the name, its description, how many
/// elements, which variables it mentions, and where it lives.
pub open spec fn show_text(
    name: Seq<char>,
    description: Option<Seq<char>>,
    elements: nat,
    variables: Seq<Seq<char>>,
    dir: Seq<char>,
) -> Seq<char> {
    name + "\n"@ + match description {
        Some(d) => "  "@ + d + "\n"@,
        None => Seq::empty(),
    } + "  "@ + decimal(elements) + " element(s)\n"@ + if variables.len() == 0 {
        "  no variables\n"@
    } else {
        "  variables mentioned: "@ + joined(variables, ", "@) + "\n"@
    } + "  "@ + dir
}

/// The report `busy template show` prints.
pub fn show_report(
    name: &str,
    description: Option<&str>,
    elements: usize,
    variables: &Vec<String>,
    dir: &str,
) -> (s: String)
    ensures
        s@ == show_text(
            name@,
            match description {
                Some(d) => Some(d@),
                None => None,
            },
            elements as nat,
            variables.deep_view(),
            dir@,
        ),
{
    let mut s = String::from_str(name);
    s.append("\n");
    if let Some(d) = description {
        s.append("  ");
        s.append(d);
        s.append("\n");
    }
    s.append("  ");
    s.append(decimal_string(elements as u64).as_str());
    s.append(" element(s)\n");
    if variables.len() == 0 {
        s.append("  no variables\n");
    } else {
        s.append("  variables mentioned: ");
        s.append(join_strings(variables, ", ").as_str());
        s.append("\n");
    }
    s.append("  ");
    s.append(dir);
    s
}

/// Each line with the template's name in front.
pub open spec fn prefixed_lines(name: Seq<char>, lines: Seq<Seq<char>>) -> Seq<Seq<char>> {
    lines.map_values(|l: Seq<char>| name + ": "@ + l)
}

/// Put the template's name in front of each line.
pub fn prefixed(name: &str, lines: &Vec<String>) -> (r: Vec<String>)
    ensures
        r.deep_view() == prefixed_lines(name@, lines.deep_view()),
{
    let mut r: Vec<String> = Vec::new();
    let mut i: usize = 0;
    while i < lines.len()
        invariant
            0 <= i <= lines@.len(),
            r.deep_view() == prefixed_lines(name@, lines.deep_view().take(i as int)),
        decreases lines@.len() - i,
    {
        let mut line = String::from_str(name);
        line.append(": ");
        line.append(lines[i].as_str());
        let ghost before = r.deep_view();
        r.push(line);
        proof {
            let t = lines.deep_view().take(i + 1);
            assert(r.deep_view() =~= before.push(line@));
            assert(t[i as int] == lines@[i as int]@);
            assert(t.drop_last() =~= lines.deep_view().take(i as int));
            assert(prefixed_lines(name@, t) =~= prefixed_lines(
                name@,
                lines.deep_view().take(i as int),
            ).push(line@));
        }
        i = i + 1;
    }
    proof {
        assert(lines.deep_view().take(lines@.len() as int) =~= lines.deep_view());
    }
    r
}

/// The warnings of every checked template, each under its name, in order.
pub open spec fn gathered_warnings(checked: Seq<(String, Report)>) -> Seq<Seq<char>>
    decreases checked.len(),
{
    if checked.len() == 0 {
        Seq::empty()
    } else {
        gathered_warnings(checked.drop_last()) + prefixed_lines(
            checked.last().0@,
            checked.last().1.warnings.deep_view(),
        )
    }
}

/// The errors of every checked template, each under its name, in order.
pub open spec fn gathered_errors(checked: Seq<(String, Report)>) -> Seq<Seq<char>>
    decreases checked.len(),
{
    if checked.len() == 0 {
        Seq::empty()
    } else {
        gathered_errors(checked.drop_last()) + prefixed_lines(
            checked.last().0@,
            checked.last().1.errors.deep_view(),
        )
    }
}

/// What validating a set of templates reports: the warnings to show, and
/// either the summary or the error that fails the command.
pub struct Validation {
    pub warnings: Vec<String>,
    pub outcome: Result<String, CliError>,
}

/// Sum up the offline reports of the templates checked, in the order they
/// were checked. Warnings never fail the command; any error does, and the
/// failure lists every error under its template's name.
pub fn validate(checked: &Vec<(String, Report)>, sanitized: bool) -> (v: Validation)
    ensures
        checked@.len() == 0 ==> v.warnings@.len() == 0 && (v.outcome matches Ok(s) && s@
            == "no templates to validate"@),
        checked@.len() > 0 ==> v.warnings.deep_view() == gathered_warnings(checked@) + if sanitized {
            seq![SANITIZED_VARIABLE_WARNING@]
        } else {
            Seq::<Seq<char>>::empty()
        },
        checked@.len() > 0 && gathered_errors(checked@).len() > 0 ==> (v.outcome matches Err(e)
            && is_usage(e, joined(gathered_errors(checked@), "\n"@))),
        checked@.len() > 0 && gathered_errors(checked@).len() == 0 ==> (v.outcome matches Ok(s)
            && s@ == decimal(checked@.len()) + " template(s) OK"@),
{
    if checked.len() == 0 {
        return Validation {
            warnings: Vec::new(),
            outcome: Ok(String::from_str("no templates to validate")),
        };
    }
    let mut warnings: Vec<String> = Vec::new();
    let mut failures: Vec<String> = Vec::new();
    let mut i: usize = 0;
    while i < checked.len()
        invariant
            0 <= i <= checked@.len(),
            warnings.deep_view() == gathered_warnings(checked@.take(i as int)),
            failures.deep_view() == gathered_errors(checked@.take(i as int)),
        decreases checked@.len() - i,
    {
        let (name, report) = &checked[i];
        let more_warnings = prefixed(name.as_str(), &report.warnings);
        let more_errors = prefixed(name.as_str(), &report.errors);
        let ghost w = warnings.deep_view();
        let ghost f = failures.deep_view();
        let mut k: usize = 0;
        while k < more_warnings.len()
            invariant
                0 <= k <= more_warnings@.len(),
                warnings.deep_view() == w + more_warnings.deep_view().take(k as int),
            decreases more_warnings@.len() - k,
        {
            let ghost before = warnings.deep_view();
            warnings.push(more_warnings[k].clone());
            proof {
                assert(warnings.deep_view() =~= before.push(more_warnings@[k as int]@));
                assert(more_warnings.deep_view()[k as int] == more_warnings@[k as int]@);
                assert(warnings.deep_view() =~= w + more_warnings.deep_view().take(k + 1));
            }
            k = k + 1;
        }
        let mut k: usize = 0;
        while k < more_errors.len()
            invariant
                0 <= k <= more_errors@.len(),
                failures.deep_view() == f + more_errors.deep_view().take(k as int),
            decreases more_errors@.len() - k,
        {
            let ghost before = failures.deep_view();
            failures.push(more_errors[k].clone());
            proof {
                assert(failures.deep_view() =~= before.push(more_errors@[k as int]@));
                assert(more_errors.deep_view()[k as int] == more_errors@[k as int]@);
                assert(failures.deep_view() =~= f + more_errors.deep_view().take(k + 1));
            }
            k = k + 1;
        }
        proof {
            let t = checked@.take(i + 1);
            assert(t.drop_last() =~= checked@.take(i as int));
            assert(t.last() == checked@[i as int]);
            assert(more_warnings.deep_view().take(more_warnings@.len() as int) =~= more_warnings.deep_view());
            assert(more_errors.deep_view().take(more_errors@.len() as int) =~= more_errors.deep_view());
        }
        i = i + 1;
    }
    proof {
        assert(checked@.take(checked@.len() as int) =~= checked@);
    }
    if sanitized {
        let ghost before = warnings.deep_view();
        warnings.push(String::from_str(SANITIZED_VARIABLE_WARNING));
        assert(warnings.deep_view() =~= before + seq![SANITIZED_VARIABLE_WARNING@]);
    } else {
        assert(warnings.deep_view() =~= warnings.deep_view() + Seq::<Seq<char>>::empty());
    }
    if failures.len() > 0 {
        let message = join_strings(&failures, "\n");
        return Validation { warnings, outcome: Err(CliError::Usage(message)) };
    }
    let mut summary = decimal_string(checked.len() as u64);
    summary.append(" template(s) OK");
    Validation { warnings, outcome: Ok(summary) }
}

} // verus!
