//! Where templates live, which names are usable, and near-miss suggestions.

use vstd::prelude::*;
use vstd::string::*;

use crate::config::config_home;
use crate::error::{is_usage, CliError};
use crate::strings::{chars_of, join_path, less_than, path_join, same_text, text_less};
use crate::values::name_ok;

verus! {

broadcast use vstd::string::group_string_axioms, vstd::seq_lib::group_to_multiset_ensures;

/// The template directory: `--template-dir` when given, else
/// `<config dir>/busy/templates` when the platform has a config directory.
pub fn root(flag: Option<&str>) -> (r: Option<String>)
    ensures
        flag matches Some(f) ==> r matches Some(p) && p@ == f@,
        flag is None ==> (r matches Some(p) ==> exists|dir: Seq<char>|
            p@ == path_join(path_join(dir, "busy"@), "templates"@)),
{
    if let Some(path) = flag {
        return Some(String::from_str(path));
    }
    match config_home() {
        Some(dir) => {
            proof {
                reveal_strlit("busy");
                reveal_strlit("templates");
            }
            let busy = join_path(dir.as_str(), "busy");
            Some(join_path(busy.as_str(), "templates"))
        },
        None => None,
    }
}

/// A usable template name: one or more of `[a-zA-Z0-9._-]`, and neither `.`
/// nor `..`, so it can never leave the template directory.
pub open spec fn template_name_ok(name: Seq<char>) -> bool {
    name_ok(name) && name != "."@ && name != ".."@
}

/// A usable template name cannot leave the template directory: it holds no
/// path separator and is neither `.` nor `..`.
pub proof fn lemma_usable_name_stays_inside(name: Seq<char>)
    requires
        template_name_ok(name),
    ensures
        forall|i: int| 0 <= i < name.len() ==> name[i] != '/' && name[i] != '\\',
        name != "."@ && name != ".."@,
{
    assert forall|i: int| 0 <= i < name.len() implies name[i] != '/' && name[i] != '\\' by {
        assert(crate::values::is_name_char(name[i]));
    }
}

/// Why a template name is refused.
pub open spec fn bad_name_text(name: Seq<char>) -> Seq<char> {
    "`"@ + name
        + "` is not a usable template name: use only letters, digits, dot, underscore, or hyphen."@
}

/// Refuse a name that could escape the template directory.
pub fn validate_name(name: &str) -> (res: Result<(), CliError>)
    ensures
        if template_name_ok(name@) {
            res is Ok
        } else {
            res matches Err(e) && is_usage(e, bad_name_text(name@))
        },
{
    let chars = chars_of(name);
    let mut ok = chars.len() > 0 && !same_text(name, ".") && !same_text(name, "..");
    let mut i: usize = 0;
    while i < chars.len()
        invariant
            chars@ == name@,
            0 <= i <= chars@.len(),
            ok == (chars@.len() > 0 && name@ != "."@ && name@ != ".."@ && forall|k: int|
                0 <= k < i ==> #[trigger] crate::values::is_name_char(chars@[k])),
        decreases chars@.len() - i,
    {
        let c = chars[i];
        let allowed = ('a' <= c && c <= 'z') || ('A' <= c && c <= 'Z') || ('0' <= c && c <= '9')
            || c == '.' || c == '_' || c == '-';
        proof {
            assert(chars@[i as int] == c);
            assert(allowed == crate::values::is_name_char(c));
        }
        ok = ok && allowed;
        i = i + 1;
    }
    if ok {
        return Ok(());
    }
    let mut m = String::from_str("`");
    m.append(name);
    m.append(
        "` is not a usable template name: use only letters, digits, dot, underscore, or hyphen.",
    );
    Err(CliError::Usage(m))
}

/// The smallest of three.
pub open spec fn min3(a: nat, b: nat, c: nat) -> nat {
    if a <= b && a <= c {
        a
    } else if b <= c {
        b
    } else {
        c
    }
}

/// The Levenshtein distance: the fewest single-character insertions,
/// deletions and substitutions that turn `a` into `b`.
pub open spec fn edit_distance(a: Seq<char>, b: Seq<char>) -> nat
    decreases a.len() + b.len(),
{
    if a.len() == 0 {
        b.len()
    } else if b.len() == 0 {
        a.len()
    } else {
        min3(
            edit_distance(a.drop_last(), b.drop_last()) + if a.last() == b.last() {
                0nat
            } else {
                1nat
            },
            edit_distance(a.drop_last(), b) + 1,
            edit_distance(a, b.drop_last()) + 1,
        )
    }
}

/// The distance never exceeds the longer length.
pub proof fn lemma_distance_bounded(a: Seq<char>, b: Seq<char>)
    ensures
        edit_distance(a, b) <= if a.len() >= b.len() {
            a.len()
        } else {
            b.len()
        },
    decreases a.len() + b.len(),
{
    if a.len() > 0 && b.len() > 0 {
        lemma_distance_bounded(a.drop_last(), b.drop_last());
    }
}

fn succ(x: usize) -> (r: usize)
    ensures
        r == if x < usize::MAX {
            x + 1
        } else {
            x as int
        },
{
    if x < usize::MAX {
        x + 1
    } else {
        x
    }
}

/// Levenshtein distance, one row at a time.
fn distance(a: &str, b: &str) -> (d: usize)
    ensures
        d == edit_distance(a@, b@),
{
    let x = chars_of(a);
    let y = chars_of(b);
    let n = x.len();
    let m = y.len();
    let mut previous: Vec<usize> = Vec::new();
    let mut j: usize = 0;
    while j < m
        invariant
            y@ == b@,
            m == y@.len(),
            0 <= j <= m,
            previous@.len() == j,
            forall|q: int| 0 <= q < j ==> previous@[q] == edit_distance(
                x@.take(0),
                #[trigger] y@.take(q + 1),
            ),
        decreases m - j,
    {
        proof {
            assert(x@.take(0).len() == 0);
        }
        previous.push(j + 1);
        j = j + 1;
    }
    let mut i: usize = 0;
    while i < n
        invariant
            x@ == a@,
            y@ == b@,
            n == x@.len(),
            m == y@.len(),
            0 <= i <= n,
            previous@.len() == m,
            forall|q: int| 0 <= q < m ==> previous@[q] == edit_distance(
                x@.take(i as int),
                #[trigger] y@.take(q + 1),
            ),
        decreases n - i,
    {
        let ghost row = x@.take(i + 1);
        proof {
            assert(row.drop_last() =~= x@.take(i as int));
            assert(row.last() == x@[i as int]);
        }
        let mut current: Vec<usize> = Vec::new();
        let mut k: usize = 0;
        while k < m
            invariant
                x@ == a@,
                y@ == b@,
                n == x@.len(),
                m == y@.len(),
                i < n,
                row == x@.take(i + 1),
                row.drop_last() == x@.take(i as int),
                row.last() == x@[i as int],
                previous@.len() == m,
                forall|q: int| 0 <= q < m ==> previous@[q] == edit_distance(
                    x@.take(i as int),
                    #[trigger] y@.take(q + 1),
                ),
                0 <= k <= m,
                current@.len() == k,
                forall|q: int| 0 <= q < k ==> current@[q] == edit_distance(
                    row,
                    #[trigger] y@.take(q + 1),
                ),
            decreases m - k,
        {
            let ghost col = y@.take(k + 1);
            proof {
                assert(col.drop_last() =~= y@.take(k as int));
                assert(col.last() == y@[k as int]);
                assert(x@.take(i as int).len() == i);
                lemma_distance_bounded(x@.take(i as int), y@.take(k as int));
                if k > 0 {
                    assert(y@.take(k as int) == y@.take((k - 1) + 1));
                }
            }
            let diagonal = if k == 0 {
                i
            } else {
                previous[k - 1]
            };
            let left = if k == 0 {
                i + 1
            } else {
                current[k - 1]
            };
            proof {
                if k == 0 {
                    assert(y@.take(0).len() == 0);
                }
                assert(diagonal == edit_distance(x@.take(i as int), y@.take(k as int)));
                assert(left == edit_distance(row, y@.take(k as int)));
            }
            let cost: usize = if x[i] != y[k] {
                1
            } else {
                0
            };
            let substitute = diagonal + cost;
            let delete = succ(previous[k]);
            let insert = succ(left);
            let best = if substitute <= delete && substitute <= insert {
                substitute
            } else if delete <= insert {
                delete
            } else {
                insert
            };
            proof {
                lemma_distance_bounded(row, col);
                assert(edit_distance(row, col) == min3(
                    edit_distance(x@.take(i as int), y@.take(k as int)) + cost as nat,
                    edit_distance(x@.take(i as int), col) + 1,
                    edit_distance(row, y@.take(k as int)) + 1,
                ));
            }
            current.push(best);
            k = k + 1;
        }
        previous = current;
        i = i + 1;
    }
    proof {
        assert(x@.take(n as int) =~= a@);
        if m > 0 {
            assert(y@.take((m - 1) + 1) =~= b@);
        } else {
            assert(b@.len() == 0);
        }
    }
    if m == 0 {
        n
    } else {
        previous[m - 1]
    }
}

/// How far a near miss may be from the name typed: a third of its length,
/// at least 2.
pub open spec fn suggestion_threshold(name: &str) -> int {
    if name.len() / 3 > 2 {
        (name.len() / 3) as int
    } else {
        2
    }
}

/// The position of the nearest candidate within `threshold`, the first of
/// equals, scanning in order.
pub open spec fn nearest(name: Seq<char>, candidates: Seq<Seq<char>>, threshold: int) -> Option<int>
    decreases candidates.len(),
{
    if candidates.len() == 0 {
        None
    } else {
        let earlier = nearest(name, candidates.drop_last(), threshold);
        let d = edit_distance(name, candidates.last());
        if d <= threshold && (earlier is None || d < edit_distance(
            name,
            candidates[earlier->0],
        )) {
            Some(candidates.len() - 1)
        } else {
            earlier
        }
    }
}

/// The suggestion for a name among candidates.
pub open spec fn suggestion(name: &str, candidates: Seq<Seq<char>>) -> Option<Seq<char>> {
    match nearest(name@, candidates, suggestion_threshold(name)) {
        Some(i) => Some(candidates[i]),
        None => None,
    }
}

/// The closest candidate within the threshold, the first of equals, when
/// any is close enough.
pub fn suggest(name: &str, candidates: &[String]) -> (r: Option<String>)
    ensures
        r is None <==> forall|j: int|
            0 <= j < candidates@.len() ==> edit_distance(name@, #[trigger] candidates@[j]@)
                > suggestion_threshold(name),
        match suggestion(name, candidates@.map_values(|c: String| c@)) {
            Some(t) => r matches Some(s) && s@ == t,
            None => r is None,
        },
        r matches Some(s) ==> exists|i: int|
            0 <= i < candidates@.len() && s@ == candidates@[i]@ && edit_distance(
                name@,
                candidates@[i]@,
            ) <= suggestion_threshold(name) && (forall|j: int|
                0 <= j < i ==> edit_distance(name@, #[trigger] candidates@[j]@) > edit_distance(
                    name@,
                    candidates@[i]@,
                )) && (forall|j: int|
                0 <= j < candidates@.len() ==> edit_distance(name@, #[trigger] candidates@[j]@)
                    >= edit_distance(name@, candidates@[i]@)),
{
    let third = name.len() / 3;
    let threshold: usize = if third > 2 {
        third
    } else {
        2
    };
    let ghost all = candidates@.map_values(|c: String| c@);
    let mut best: Option<usize> = None;
    let mut best_distance: usize = 0;
    let mut j: usize = 0;
    while j < candidates.len()
        invariant
            all == candidates@.map_values(|c: String| c@),
            match nearest(name@, all.take(j as int), threshold as int) {
                Some(i) => best matches Some(b) && b as int == i,
                None => best is None,
            },
            threshold == suggestion_threshold(name),
            0 <= j <= candidates@.len(),
            best is None <==> forall|q: int|
                0 <= q < j ==> edit_distance(name@, #[trigger] candidates@[q]@) > threshold,
            best matches Some(i) ==> i < j && best_distance == edit_distance(
                name@,
                candidates@[i as int]@,
            ) && best_distance <= threshold && (forall|q: int|
                0 <= q < i ==> edit_distance(name@, #[trigger] candidates@[q]@) > best_distance)
                && (forall|q: int|
                0 <= q < j ==> edit_distance(name@, #[trigger] candidates@[q]@) >= best_distance),
        decreases candidates@.len() - j,
    {
        let d = distance(name, candidates[j].as_str());
        proof {
            let t = all.take(j + 1);
            assert(t.drop_last() =~= all.take(j as int));
            assert(t.last() == candidates@[j as int]@);
            if let Some(i) = best {
                assert(t[i as int] == candidates@[i as int]@);
            }
        }
        if d <= threshold {
            match best {
                None => {
                    best = Some(j);
                    best_distance = d;
                },
                Some(_) => {
                    if d < best_distance {
                        best = Some(j);
                        best_distance = d;
                    }
                },
            }
        }
        j = j + 1;
    }
    proof {
        assert(all.take(candidates@.len() as int) =~= all);
    }
    match best {
        Some(i) => Some(candidates[i].clone()),
        None => None,
    }
}

/// Whether names are in ascending order.
pub open spec fn names_in_order(s: Seq<String>) -> bool {
    forall|i: int, j: int| 0 <= i < j < s.len() ==> !text_less(#[trigger] s[j]@, #[trigger] s[i]@)
}

/// The installed template names in ascending order, as listings show them.
pub fn sort_names(names: Vec<String>) -> (r: Vec<String>)
    ensures
        names_in_order(r@),
        r@.to_multiset() == names@.to_multiset(),
{
    let ghost all = names@;
    let mut rest = names;
    let mut r: Vec<String> = Vec::new();
    let ghost mut k: int = 0;
    while rest.len() > 0
        invariant
            0 <= k <= all.len(),
            rest@ == all.skip(k),
            names_in_order(r@),
            r@.to_multiset() == all.take(k).to_multiset(),
        decreases rest@.len(),
    {
        let x = rest.remove(0);
        assert(x == all[k]);
        let mut p: usize = r.len();
        while p > 0 && less_than(x.as_str(), r[p - 1].as_str())
            invariant
                0 <= p <= r@.len(),
                forall|q: int| p <= q < r@.len() ==> text_less(x@, #[trigger] r@[q]@),
            decreases p,
        {
            p = p - 1;
        }
        let ghost old_r = r@;
        proof {
            if p > 0 {
                assert(!text_less(x@, old_r[p - 1]@));
            }
        }
        r.insert(p, x);
        proof {
            let nr = r@;
            assert(nr =~= old_r.insert(p as int, x));
            assert forall|i: int, j: int| 0 <= i < j < nr.len() implies !text_less(
                #[trigger] nr[j]@,
                #[trigger] nr[i]@,
            ) by {
                if j < p {
                    assert(nr[i] == old_r[i] && nr[j] == old_r[j]);
                } else if j == p {
                    assert(nr[i] == old_r[i]);
                    if text_less(x@, old_r[i]@) {
                        if i < p - 1 {
                            crate::strings::lemma_text_less_transitive_neg(old_r[i]@, old_r[p - 1]@, x@);
                        }
                    }
                } else if i == p {
                    assert(nr[j] == old_r[j - 1]);
                    crate::strings::lemma_text_less_irreflexive(x@);
                    if text_less(old_r[j - 1]@, x@) {
                        crate::strings::lemma_text_less_transitive(old_r[j - 1]@, x@, old_r[j - 1]@);
                        crate::strings::lemma_text_less_irreflexive(old_r[j - 1]@);
                    }
                } else if i < p {
                    assert(nr[i] == old_r[i] && nr[j] == old_r[j - 1]);
                } else {
                    assert(nr[i] == old_r[i - 1] && nr[j] == old_r[j - 1]);
                }
            }
            assert(all.take(k + 1) =~= all.take(k).push(x));
            assert(rest@ =~= all.skip(k + 1));
            k = k + 1;
        }
    }
    proof {
        assert(all.take(all.len() as int) =~= all);
    }
    r
}

} // verus!

