//! Templates: a directory holding a `template.toml` that renders to a payload.

pub mod discover;
pub mod render;
pub mod validate;

use vstd::prelude::*;
use vstd::string::*;

use crate::error::{is_usage, CliError};
use crate::model::{Color, DisplayElement, DisplayElements};
use crate::sanitize::{all_printable, ascii_text, to_ascii};
use crate::values::{app_name_error, check_app_name, name_ok};

verus! {

broadcast use vstd::string::group_string_axioms;

/// The value a later entry gives `key`, if any entry names it: the last one
/// wins.
pub open spec fn lookup(entries: Seq<(Seq<char>, Seq<char>)>, key: Seq<char>) -> Option<Seq<char>>
    decreases entries.len(),
{
    if entries.len() == 0 {
        None
    } else if entries.last().0 == key {
        Some(entries.last().1)
    } else {
        lookup(entries.drop_last(), key)
    }
}

/// Template variables: names and the values substituted for them.
#[derive(Debug, Clone)]
pub struct Vars {
    entries: Vec<(String, String)>,
}

impl Vars {
    /// The entries as text pairs, in the order they were set.
    pub closed spec fn pairs(&self) -> Seq<(Seq<char>, Seq<char>)> {
        self.entries@.map_values(|e: (String, String)| (e.0@, e.1@))
    }
}

impl View for Vars {
    type V = Map<Seq<char>, Seq<char>>;

    closed spec fn view(&self) -> Map<Seq<char>, Seq<char>> {
        Map::new(
            |k: Seq<char>| lookup(self.pairs(), k) is Some,
            |k: Seq<char>| lookup(self.pairs(), k)->0,
        )
    }
}

/// Whether no two entries name the same variable.
pub open spec fn distinct_names(entries: Seq<(Seq<char>, Seq<char>)>) -> bool {
    forall|i: int, j: int| 0 <= i < j < entries.len() ==> entries[i].0 != entries[j].0
}

proof fn lemma_lookup_at(entries: Seq<(Seq<char>, Seq<char>)>, i: int, key: Seq<char>)
    requires
        distinct_names(entries),
        0 <= i < entries.len(),
        entries[i].0 == key,
    ensures
        lookup(entries, key) == Some(entries[i].1),
    decreases entries.len(),
{
    if i < entries.len() - 1 {
        assert(entries.last() == entries[entries.len() - 1]);
        assert(entries.drop_last()[i] == entries[i]);
        lemma_lookup_at(entries.drop_last(), i, key);
    }
}

proof fn lemma_lookup_absent(entries: Seq<(Seq<char>, Seq<char>)>, key: Seq<char>)
    requires
        forall|i: int| 0 <= i < entries.len() ==> entries[i].0 != key,
    ensures
        lookup(entries, key) is None,
    decreases entries.len(),
{
    if entries.len() > 0 {
        assert(entries.last() == entries[entries.len() - 1]);
        assert forall|i: int| 0 <= i < entries.drop_last().len() implies entries.drop_last()[i].0
            != key by {
            assert(entries.drop_last()[i] == entries[i]);
        }
        lemma_lookup_absent(entries.drop_last(), key);
    }
}

impl Vars {
    /// Each variable is held once.
    pub closed spec fn wf(&self) -> bool {
        distinct_names(self.pairs())
    }

    /// No variables.
    pub fn new() -> (v: Vars)
        ensures
            v.wf(),
            v@ == Map::<Seq<char>, Seq<char>>::empty(),
    {
        let v = Vars { entries: Vec::new() };
        proof {
            assert(v.pairs() =~= Seq::<(Seq<char>, Seq<char>)>::empty());
            assert(v@ =~= Map::<Seq<char>, Seq<char>>::empty());
        }
        v
    }

    fn position(&self, key: &str) -> (r: Option<usize>)
        ensures
            match r {
                Some(i) => i < self.pairs().len() && self.pairs()[i as int].0 == key@,
                None => forall|i: int| 0 <= i < self.pairs().len() ==> self.pairs()[i].0 != key@,
            },
    {
        let mut i: usize = 0;
        while i < self.entries.len()
            invariant
                0 <= i <= self.pairs().len(),
                self.pairs().len() == self.entries@.len(),
                forall|q: int| 0 <= q < i ==> self.pairs()[q].0 != key@,
            decreases self.entries@.len() - i,
        {
            assert(self.pairs()[i as int].0 == self.entries@[i as int].0@);
            if string_eq(self.entries[i].0.as_str(), key) {
                return Some(i);
            }
            i = i + 1;
        }
        None
    }

    /// Set `key` to `value`, replacing any earlier value.
    pub fn insert(&mut self, key: String, value: String)
        requires
            old(self).wf(),
        ensures
            final(self).wf(),
            final(self)@ == old(self)@.insert(key@, value@),
    {
        let ghost before = self.pairs();
        match self.position(key.as_str()) {
            Some(i) => {
                self.entries[i] = (key, value);
                proof {
                    let after = self.pairs();
                    assert(after =~= before.update(i as int, (key@, value@)));
                    assert forall|k: Seq<char>| #[trigger] lookup(after, k) == if k == key@ {
                        Some(value@)
                    } else {
                        lookup(before, k)
                    } by {
                        if k == key@ {
                            lemma_lookup_at(after, i as int, k);
                        } else if exists|j: int| 0 <= j < before.len() && before[j].0 == k {
                            let j = choose|j: int| 0 <= j < before.len() && before[j].0 == k;
                            lemma_lookup_at(before, j, k);
                            lemma_lookup_at(after, j, k);
                        } else {
                            lemma_lookup_absent(before, k);
                            lemma_lookup_absent(after, k);
                        }
                    }
                }
            },
            None => {
                self.entries.push((key, value));
                proof {
                    let after = self.pairs();
                    assert(after =~= before.push((key@, value@)));
                    assert forall|k: Seq<char>| #[trigger] lookup(after, k) == if k == key@ {
                        Some(value@)
                    } else {
                        lookup(before, k)
                    } by {
                        assert(after.drop_last() =~= before);
                    }
                }
            },
        }
        proof {
            assert(final(self)@ =~= old(self)@.insert(key@, value@));
        }
    }

    /// Whether `key` has a value.
    pub fn contains_key(&self, key: &str) -> (r: bool)
        ensures
            r == self@.contains_key(key@),
    {
        self.get(key).is_some()
    }

    /// The value of `key`, if it has one.
    pub fn get(&self, key: &str) -> (r: Option<&String>)
        ensures
            match r {
                Some(v) => self@.contains_key(key@) && self@[key@] == v@,
                None => !self@.contains_key(key@),
            },
    {
        let ghost all = self.pairs();
        let mut i: usize = self.entries.len();
        assert(all.take(all.len() as int) =~= all);
        while i > 0
            invariant
                all == self.pairs(),
                0 <= i <= all.len(),
                lookup(all, key@) == lookup(all.take(i as int), key@),
            decreases i,
        {
            let ghost prefix = all.take(i as int);
            assert(prefix.last() == all[i - 1]);
            assert(prefix.drop_last() =~= all.take(i - 1));
            if string_eq(self.entries[i - 1].0.as_str(), key) {
                return Some(&self.entries[i - 1].1);
            }
            i = i - 1;
        }
        assert(all.take(0) =~= Seq::<(Seq<char>, Seq<char>)>::empty());
        None
    }

    /// How many variables are set.
    pub fn len(&self) -> (n: usize)
        requires
            self.wf(),
        ensures
            n == self@.dom().len(),
    {
        proof {
            let ps = self.pairs();
            let names = ps.map_values(|e: (Seq<char>, Seq<char>)| e.0);
            assert(names.no_duplicates());
            assert(self@.dom() =~= names.to_set()) by {
                assert forall|k: Seq<char>| self@.dom().contains(k) implies names.to_set().contains(k) by {
                    if forall|i: int| 0 <= i < ps.len() ==> ps[i].0 != k {
                        lemma_lookup_absent(ps, k);
                    } else {
                        let i = choose|i: int| !(0 <= i < ps.len() ==> ps[i].0 != k);
                        assert(names[i] == k);
                    }
                }
                assert forall|k: Seq<char>| names.to_set().contains(k) implies self@.dom().contains(k) by {
                    let i = choose|i: int| 0 <= i < names.len() && names[i] == k;
                    lemma_lookup_at(ps, i, k);
                }
            }
            names.unique_seq_to_set();
        }
        self.entries.len()
    }
}

/// Every value with its characters made printable ASCII, as the bar's
/// fonts need; whether any value held something else.
pub fn sanitize_values(vars: &mut Vars) -> (changed: bool)
    requires
        old(vars).wf(),
    ensures
        final(vars).wf(),
        final(vars)@ == Map::new(
            |k: Seq<char>| old(vars)@.contains_key(k),
            |k: Seq<char>| ascii_text(old(vars)@[k]),
        ),
        changed == exists|k: Seq<char>|
            old(vars)@.contains_key(k) && !all_printable(#[trigger] old(vars)@[k]),
{
    let ghost before = vars.pairs();
    let mut changed = false;
    let mut i: usize = 0;
    while i < vars.entries.len()
        invariant
            before.len() == vars.pairs().len(),
            vars.pairs().len() == vars.entries@.len(),
            distinct_names(before),
            0 <= i <= before.len(),
            forall|j: int| 0 <= j < i ==> #[trigger] vars.pairs()[j] == (before[j].0, ascii_text(before[j].1)),
            forall|j: int| i <= j < before.len() ==> #[trigger] vars.pairs()[j] == before[j],
            changed == exists|j: int| 0 <= j < i && !all_printable(#[trigger] before[j].1),
        decreases before.len() - i,
    {
        let key = vars.entries[i].0.clone();
        let cleaned = to_ascii(vars.entries[i].1.as_str());
        proof {
            assert(vars.pairs()[i as int] == before[i as int]);
            assert(vars.entries@[i as int].1@ == before[i as int].1);
        }
        changed = changed || cleaned.changed;
        let ghost mid = vars.pairs();
        vars.entries[i] = (key, cleaned.text);
        proof {
            assert(vars.pairs() =~= mid.update(i as int, (before[i as int].0, ascii_text(before[i as int].1))));
        }
        i = i + 1;
    }
    proof {
        let after = vars.pairs();
        assert(distinct_names(after)) by {
            assert forall|a: int, b: int| 0 <= a < b < after.len() implies after[a].0 != after[b].0 by {
                assert(after[a].0 == before[a].0 && after[b].0 == before[b].0);
            }
        }
        assert forall|k: Seq<char>| #[trigger] lookup(after, k) == match lookup(before, k) {
            Some(v) => Some(ascii_text(v)),
            None => None,
        } by {
            if exists|j: int| 0 <= j < before.len() && before[j].0 == k {
                let j = choose|j: int| 0 <= j < before.len() && before[j].0 == k;
                lemma_lookup_at(before, j, k);
                assert(after[j] == (before[j].0, ascii_text(before[j].1)));
                lemma_lookup_at(after, j, k);
            } else {
                lemma_lookup_absent(before, k);
                assert forall|j: int| 0 <= j < after.len() implies after[j].0 != k by {
                    assert(after[j].0 == before[j].0);
                }
                lemma_lookup_absent(after, k);
            }
        }
        assert(final(vars)@ =~= Map::new(
            |k: Seq<char>| old(vars)@.contains_key(k),
            |k: Seq<char>| ascii_text(old(vars)@[k]),
        ));
        if changed {
            let j = choose|j: int| 0 <= j < before.len() && !all_printable(#[trigger] before[j].1);
            lemma_lookup_at(before, j, before[j].0);
            assert(old(vars)@.contains_key(before[j].0));
            assert(!all_printable(old(vars)@[before[j].0]));
        }
        if exists|k: Seq<char>| old(vars)@.contains_key(k) && !all_printable(#[trigger] old(vars)@[k]) {
            let k = choose|k: Seq<char>| old(vars)@.contains_key(k) && !all_printable(#[trigger] old(vars)@[k]);
            if forall|j: int| 0 <= j < before.len() ==> before[j].0 != k {
                lemma_lookup_absent(before, k);
            } else {
                let j = choose|j: int| !(0 <= j < before.len() ==> before[j].0 != k);
                lemma_lookup_at(before, j, k);
                assert(!all_printable(before[j].1));
            }
        }
    }
    changed
}

fn string_eq(a: &str, b: &str) -> (r: bool)
    ensures
        r == (a@ == b@),
{
    crate::strings::same_text(a, b)
}

/// The position of the first `=` in `s`, if any.
pub open spec fn first_equals(s: Seq<char>) -> Option<int>
    decreases s.len(),
{
    if s.len() == 0 {
        None
    } else if s[0] == '=' {
        Some(0)
    } else {
        match first_equals(s.skip(1)) {
            Some(i) => Some(i + 1),
            None => None,
        }
    }
}

/// Why a `--var` without `=` is refused.
pub open spec fn not_a_pair_text(pair: Seq<char>) -> Seq<char> {
    "`--var "@ + pair + "` is not in `k=v` form; write `--var "@ + pair + "=<value>`."@
}

/// Why a `--var` with an empty name is refused.
pub open spec fn empty_name_text(pair: Seq<char>) -> Seq<char> {
    "`--var "@ + pair + "` has an empty variable name."@
}

/// Why a message given both ways is refused.
pub open spec fn message_twice_text() -> Seq<char> {
    "the message was supplied both as a positional argument and as `--var message=…`; use one or the other."@
}

/// The variables a list of `k=v` pairs sets, split at the first `=`, a
/// later pair replacing an earlier one; or why the first bad pair is refused.
pub open spec fn vars_from_pairs(pairs: Seq<Seq<char>>) -> Result<Map<Seq<char>, Seq<char>>, Seq<char>>
    decreases pairs.len(),
{
    if pairs.len() == 0 {
        Ok(Map::empty())
    } else {
        match vars_from_pairs(pairs.drop_last()) {
            Err(m) => Err(m),
            Ok(m) => {
                let p = pairs.last();
                match first_equals(p) {
                    None => Err(not_a_pair_text(p)),
                    Some(i) => if i == 0 {
                        Err(empty_name_text(p))
                    } else {
                        Ok(m.insert(p.take(i), p.skip(i + 1)))
                    },
                }
            },
        }
    }
}

/// What `bind_variables` gives: the pairs' variables, with the positional
/// bound to `message`.
pub open spec fn bound_variables(positional: Option<Seq<char>>, pairs: Seq<Seq<char>>) -> Result<
    Map<Seq<char>, Seq<char>>,
    Seq<char>,
> {
    match vars_from_pairs(pairs) {
        Err(m) => Err(m),
        Ok(m) => match positional {
            None => Ok(m),
            Some(message) => if m.contains_key("message"@) {
                Err(message_twice_text())
            } else {
                Ok(m.insert("message"@, message))
            },
        },
    }
}

/// Whether `p` is a `k=v` pair with a non-empty name.
pub open spec fn well_formed_pair(p: Seq<char>) -> bool {
    match first_equals(p) {
        Some(i) => i > 0,
        None => false,
    }
}

/// The name a pair sets: what stands before its first `=`.
pub open spec fn pair_key(p: Seq<char>) -> Seq<char> {
    match first_equals(p) {
        Some(i) => p.take(i),
        None => p,
    }
}

/// The value a pair gives: all that follows its first `=`.
pub open spec fn pair_value(p: Seq<char>) -> Seq<char> {
    match first_equals(p) {
        Some(i) => p.skip(i + 1),
        None => Seq::empty(),
    }
}

/// Why a pair that is not well formed is refused.
pub open spec fn pair_refusal(p: Seq<char>) -> Seq<char> {
    match first_equals(p) {
        None => not_a_pair_text(p),
        Some(_) => empty_name_text(p),
    }
}

/// Whether no pair after the one at `j` sets the same name.
pub open spec fn last_of_its_name(pairs: Seq<Seq<char>>, j: int) -> bool {
    forall|l: int| j < l < pairs.len() ==> pair_key(#[trigger] pairs[l]) != pair_key(pairs[j])
}

proof fn lemma_first_equals(s: Seq<char>)
    ensures
        match first_equals(s) {
            Some(i) => 0 <= i < s.len() && s[i] == '=' && forall|j: int| 0 <= j < i ==> s[j] != '=',
            None => forall|j: int| 0 <= j < s.len() ==> s[j] != '=',
        },
    decreases s.len(),
{
    if s.len() > 0 && s[0] != '=' {
        let t = s.skip(1);
        lemma_first_equals(t);
        assert forall|j: int| 0 < j < s.len() implies s[j] == t[j - 1] by {}
    }
}

proof fn lemma_pairs_bind(pairs: Seq<Seq<char>>)
    ensures
        vars_from_pairs(pairs) is Ok <==> forall|j: int|
            0 <= j < pairs.len() ==> #[trigger] well_formed_pair(pairs[j]),
        forall|j: int|
            #![trigger pairs[j]]
            0 <= j < pairs.len() && !well_formed_pair(pairs[j]) && (forall|l: int|
                0 <= l < j ==> #[trigger] well_formed_pair(pairs[l])) ==> vars_from_pairs(pairs)
                == Err::<Map<Seq<char>, Seq<char>>, Seq<char>>(pair_refusal(pairs[j])),
        vars_from_pairs(pairs) matches Ok(m) ==> forall|k: Seq<char>|
            m.contains_key(k) <==> exists|j: int|
                0 <= j < pairs.len() && #[trigger] pair_key(pairs[j]) == k,
        vars_from_pairs(pairs) matches Ok(m) ==> forall|j: int|
            0 <= j < pairs.len() && #[trigger] last_of_its_name(pairs, j) ==> m[pair_key(pairs[j])]
                == pair_value(pairs[j]),
    decreases pairs.len(),
{
    if pairs.len() > 0 {
        let init = pairs.drop_last();
        let n = init.len() as int;
        let p = pairs.last();
        lemma_pairs_bind(init);
        assert forall|j: int| 0 <= j < n implies #[trigger] pairs[j] == init[j] by {}
        assert(pairs[n] == p);
        match vars_from_pairs(init) {
            Err(e) => {
                let j0 = choose|j: int| 0 <= j < n && !#[trigger] well_formed_pair(init[j]);
                assert(!well_formed_pair(pairs[j0]));
                assert forall|j: int|
                    #![trigger pairs[j]]
                    0 <= j < pairs.len() && !well_formed_pair(pairs[j]) && (forall|l: int|
                        0 <= l < j ==> #[trigger] well_formed_pair(pairs[l])) implies vars_from_pairs(
                    pairs) == Err::<Map<Seq<char>, Seq<char>>, Seq<char>>(pair_refusal(pairs[j])) by {
                    if j == n {
                        assert(well_formed_pair(pairs[j0]));
                    } else {
                        assert(pairs[j] == init[j]);
                        assert forall|l: int| 0 <= l < j implies #[trigger] well_formed_pair(init[l]) by {
                            assert(pairs[l] == init[l]);
                            assert(well_formed_pair(pairs[l]));
                        }
                    }
                }
            },
            Ok(m0) => {
                assert forall|j: int| 0 <= j < n implies #[trigger] well_formed_pair(pairs[j]) by {
                    assert(well_formed_pair(init[j]));
                }
                match first_equals(p) {
                    None => {
                        assert(!well_formed_pair(pairs[n]));
                        assert(vars_from_pairs(pairs) == Err::<Map<Seq<char>, Seq<char>>, Seq<char>>(
                            pair_refusal(pairs[n])));
                        assert forall|j: int|
                            #![trigger pairs[j]]
                            0 <= j < pairs.len() && !well_formed_pair(pairs[j]) && (forall|l: int|
                                0 <= l < j ==> #[trigger] well_formed_pair(pairs[l])) implies j == n by {
                            if j < n {
                                assert(well_formed_pair(init[j]));
                            }
                        }
                    },
                    Some(i) => {
                        if i == 0 {
                            assert(!well_formed_pair(pairs[n]));
                            assert(vars_from_pairs(pairs) == Err::<Map<Seq<char>, Seq<char>>, Seq<char>>(
                                pair_refusal(pairs[n])));
                            assert forall|j: int|
                                #![trigger pairs[j]]
                                0 <= j < pairs.len() && !well_formed_pair(pairs[j]) && (forall|l: int|
                                    0 <= l < j ==> #[trigger] well_formed_pair(pairs[l])) implies j == n by {
                                if j < n {
                                    assert(well_formed_pair(init[j]));
                                }
                            }
                        } else {
                            lemma_first_equals(p);
                            assert(well_formed_pair(pairs[n]));
                            let m = m0.insert(p.take(i), p.skip(i + 1));
                            assert(vars_from_pairs(pairs) == Ok::<Map<Seq<char>, Seq<char>>, Seq<char>>(m));
                            assert(pair_key(p) == p.take(i));
                            assert forall|k: Seq<char>| m.contains_key(k) <==> exists|j: int|
                                0 <= j < pairs.len() && #[trigger] pair_key(pairs[j]) == k by {
                                if m0.contains_key(k) {
                                    let j = choose|j: int| 0 <= j < n && #[trigger] pair_key(init[j]) == k;
                                    assert(pair_key(pairs[j]) == k);
                                }
                                if exists|j: int| 0 <= j < pairs.len() && #[trigger] pair_key(pairs[j]) == k {
                                    let j = choose|j: int| 0 <= j < pairs.len() && #[trigger] pair_key(pairs[j]) == k;
                                    if j < n {
                                        assert(pair_key(init[j]) == k);
                                    }
                                }
                            }
                            assert forall|j: int|
                                0 <= j < pairs.len() && #[trigger] last_of_its_name(pairs, j) implies m[pair_key(pairs[j])]
                                    == pair_value(pairs[j]) by {
                                if j < n {
                                    assert(pair_key(pairs[n]) != pair_key(pairs[j]));
                                    assert forall|l: int| j < l < init.len() implies pair_key(#[trigger] init[l]) != pair_key(init[j]) by {
                                        assert(pairs[l] == init[l]);
                                    }
                                    assert(last_of_its_name(init, j));
                                }
                            }
                        }
                    },
                }
            },
        }
    }
}

/// The binding law. Every pair must be `name=value` with a non-empty name,
/// split at its first `=` so that the value may itself hold `=`; the first
/// pair that is not is refused, with its own words. With all pairs well
/// formed, a positional message beside a pair that sets `message` is
/// refused. Otherwise the variables are exactly the names the pairs set,
/// plus `message` for a positional; a name's value is that of its last
/// pair, and `message` holds the positional.
pub proof fn lemma_binding(positional: Option<Seq<char>>, pairs: Seq<Seq<char>>)
    ensures
        forall|j: int|
            0 <= j < pairs.len() && #[trigger] well_formed_pair(pairs[j]) ==> pair_key(pairs[j]).len()
                > 0 && !pair_key(pairs[j]).contains('=') && pairs[j] == pair_key(pairs[j]) + seq!['=']
                + pair_value(pairs[j]),
        bound_variables(positional, pairs) is Ok <==> (forall|j: int|
            0 <= j < pairs.len() ==> #[trigger] well_formed_pair(pairs[j])) && !(positional is Some
            && exists|j: int| 0 <= j < pairs.len() && #[trigger] pair_key(pairs[j]) == "message"@),
        forall|j: int|
            #![trigger pairs[j]]
            0 <= j < pairs.len() && !well_formed_pair(pairs[j]) && (forall|l: int|
                0 <= l < j ==> #[trigger] well_formed_pair(pairs[l])) ==> bound_variables(positional, pairs)
                == Err::<Map<Seq<char>, Seq<char>>, Seq<char>>(pair_refusal(pairs[j])),
        (forall|j: int| 0 <= j < pairs.len() ==> #[trigger] well_formed_pair(pairs[j])) && positional is Some
            && (exists|j: int| 0 <= j < pairs.len() && #[trigger] pair_key(pairs[j]) == "message"@)
            ==> bound_variables(positional, pairs) == Err::<Map<Seq<char>, Seq<char>>, Seq<char>>(
            message_twice_text()),
        bound_variables(positional, pairs) matches Ok(m) ==> forall|k: Seq<char>|
            m.contains_key(k) <==> ((positional is Some && k == "message"@) || exists|j: int|
                0 <= j < pairs.len() && #[trigger] pair_key(pairs[j]) == k),
        bound_variables(positional, pairs) matches Ok(m) ==> forall|j: int|
            0 <= j < pairs.len() && #[trigger] last_of_its_name(pairs, j) ==> m[pair_key(pairs[j])]
                == pair_value(pairs[j]),
        bound_variables(positional, pairs) matches Ok(m) ==> forall|text: Seq<char>|
            positional == Some(text) ==> #[trigger] m["message"@] == text,
{
    lemma_pairs_bind(pairs);
    assert forall|j: int|
        0 <= j < pairs.len() && #[trigger] well_formed_pair(pairs[j]) implies pair_key(pairs[j]).len()
            > 0 && !pair_key(pairs[j]).contains('=') && pairs[j] == pair_key(pairs[j]) + seq!['=']
            + pair_value(pairs[j]) by {
        let q = pairs[j];
        lemma_first_equals(q);
        let i = first_equals(q)->0;
        assert(q.take(i) + seq!['='] + q.skip(i + 1) =~= q);
        assert forall|x: int| 0 <= x < q.take(i).len() implies q.take(i)[x] != '=' by {}
    }
    match vars_from_pairs(pairs) {
        Err(_) => {},
        Ok(m) => {
            if positional is Some && exists|j: int| 0 <= j < pairs.len() && #[trigger] pair_key(pairs[j]) == "message"@ {
                let j = choose|j: int| 0 <= j < pairs.len() && #[trigger] pair_key(pairs[j]) == "message"@;
                assert(m.contains_key(pair_key(pairs[j])));
            }
            if positional is Some && m.contains_key("message"@) {
                let j = choose|j: int| 0 <= j < pairs.len() && #[trigger] pair_key(pairs[j]) == "message"@;
            }
        },
    }
}

fn split_at_equals(pair: &str) -> (r: Option<(String, String)>)
    ensures
        match first_equals(pair@) {
            None => r is None,
            Some(i) => 0 <= i < pair@.len() && (r matches Some((k, v)) && k@ == pair@.take(i) && v@
                == pair@.skip(i + 1)),
        },
{
    let chars = crate::strings::chars_of(pair);
    let mut i: usize = 0;
    assert(pair@.skip(0) =~= pair@);
    while i < chars.len()
        invariant
            chars@ == pair@,
            0 <= i <= chars@.len(),
            first_equals(pair@) == match first_equals(pair@.skip(i as int)) {
                Some(j) => Some(j + i),
                None => None::<int>,
            },
        decreases chars@.len() - i,
    {
        assert(pair@.skip(i as int)[0] == chars@[i as int]);
        if chars[i] == '=' {
            let key = crate::strings::string_of(&chars_slice(&chars, 0, i));
            let value = crate::strings::string_of(&chars_slice(&chars, i + 1, chars.len()));
            return Some((key, value));
        }
        assert(pair@.skip(i as int).skip(1) =~= pair@.skip(i + 1));
        i = i + 1;
    }
    assert(pair@.skip(i as int) =~= Seq::<char>::empty());
    None
}

fn chars_slice(v: &Vec<char>, from: usize, to: usize) -> (r: Vec<char>)
    requires
        from <= to <= v@.len(),
    ensures
        r@ == v@.subrange(from as int, to as int),
{
    let mut r: Vec<char> = Vec::new();
    let mut i = from;
    while i < to
        invariant
            from <= i <= to,
            to <= v@.len(),
            r@ == v@.subrange(from as int, i as int),
        decreases to - i,
    {
        r.push(v[i]);
        i = i + 1;
        assert(r@ =~= v@.subrange(from as int, i as int));
    }
    r
}

/// Collect variable values from the positional argument and repeated
/// `--var k=v`. The positional binds to `message`; supplying it both ways is
/// an error rather than a silent precedence rule. A pair is split at its
/// first `=`, so a value may itself contain `=`.
pub fn bind_variables(positional: Option<&str>, pairs: &[String]) -> (res: Result<Vars, CliError>)
    ensures
        match bound_variables(
            match positional {
                Some(p) => Some(p@),
                None => None,
            },
            pairs@.map_values(|p: String| p@),
        ) {
            Ok(m) => res matches Ok(v) && v.wf() && v@ == m,
            Err(m) => res matches Err(e) && is_usage(e, m),
        },
{
    let ghost all = pairs@.map_values(|p: String| p@);
    let mut vars = Vars::new();
    let mut i: usize = 0;
    while i < pairs.len()
        invariant
            all == pairs@.map_values(|p: String| p@),
            0 <= i <= pairs@.len(),
            vars.wf(),
            vars_from_pairs(all.take(i as int)) == Ok::<Map<Seq<char>, Seq<char>>, Seq<char>>(
                vars@,
            ),
        decreases pairs@.len() - i,
    {
        let pair = pairs[i].as_str();
        let ghost taken = all.take(i + 1);
        proof {
            assert(taken.drop_last() =~= all.take(i as int));
            assert(taken.last() == pair@);
        }
        match split_at_equals(pair) {
            None => {
                let mut m = String::from_str("`--var ");
                m.append(pair);
                m.append("` is not in `k=v` form; write `--var ");
                m.append(pair);
                m.append("=<value>`.");
                proof {
                    assert(vars_from_pairs(taken) == Err::<Map<Seq<char>, Seq<char>>, Seq<char>>(
                        not_a_pair_text(pair@),
                    ));
                    lemma_error_stays(all, i as int + 1);
                    lemma_bound_error(positional, all);
                }
                return Err(CliError::Usage(m));
            },
            Some((key, value)) => {
                if key.as_str().is_empty() {
                    let mut m = String::from_str("`--var ");
                    m.append(pair);
                    m.append("` has an empty variable name.");
                    proof {
                        assert(key@.len() == 0);
                        assert(vars_from_pairs(taken) == Err::<Map<Seq<char>, Seq<char>>, Seq<char>>(
                            empty_name_text(pair@),
                        ));
                        lemma_error_stays(all, i as int + 1);
                        lemma_bound_error(positional, all);
                    }
                    return Err(CliError::Usage(m));
                }
                vars.insert(key, value);
            },
        }
        i = i + 1;
    }
    proof {
        assert(all.take(pairs@.len() as int) =~= all);
    }
    if let Some(message) = positional {
        proof {
            reveal_strlit("message");
        }
        if vars.contains_key("message") {
            return Err(
                CliError::Usage(
                    String::from_str(
                        "the message was supplied both as a positional argument and as `--var message=…`; use one or the other.",
                    ),
                ),
            );
        }
        vars.insert(String::from_str("message"), String::from_str(message));
    }
    Ok(vars)
}

proof fn lemma_bound_error(positional: Option<&str>, pairs: Seq<Seq<char>>)
    requires
        vars_from_pairs(pairs) is Err,
    ensures
        bound_variables(
            match positional {
                Some(p) => Some(p@),
                None => None,
            },
            pairs,
        ) == Err::<Map<Seq<char>, Seq<char>>, Seq<char>>(vars_from_pairs(pairs)->Err_0),
{
}

/// Once a prefix of the pairs is refused, the whole list is refused for the
/// same reason.
proof fn lemma_error_stays(pairs: Seq<Seq<char>>, n: int)
    requires
        0 <= n <= pairs.len(),
        vars_from_pairs(pairs.take(n)) is Err,
    ensures
        vars_from_pairs(pairs) == vars_from_pairs(pairs.take(n)),
    decreases pairs.len() - n,
{
    if n < pairs.len() {
        assert(pairs.take(n + 1).drop_last() =~= pairs.take(n));
        lemma_error_stays(pairs, n + 1);
    } else {
        assert(pairs.take(n) =~= pairs);
    }
}

/// The hint added when a template is not found: the nearest name, else
/// how to install some, else what there is.
pub open spec fn missing_hint(suggestion: Option<Seq<char>>, candidates: Seq<Seq<char>>) -> Seq<char> {
    match suggestion {
        Some(near) => " Did you mean `"@ + near + "`?"@,
        None => if candidates.len() == 0 {
            " No templates are installed; run `busy template init`."@
        } else {
            " Available: "@ + crate::strings::joined(candidates, ", "@) + "."@
        },
    }
}

/// Why a template that is not installed cannot be loaded, with a hint:
/// the near miss `discover::suggest` finds among the installed names,
/// else how to install the examples, else the names there are.
pub fn missing_template(name: &str, candidates: &Vec<String>) -> (e: CliError)
    ensures
        is_usage(
            e,
            "no template named `"@ + name@ + "`."@ + missing_hint(
                discover::suggestion(name, candidates.deep_view()),
                candidates.deep_view(),
            ),
        ),
{
    proof {
        assert(candidates.deep_view() =~= candidates@.map_values(|c: String| c@));
    }
    let mut m = String::from_str("no template named `");
    m.append(name);
    m.append("`.");
    let ghost prefix = m@;
    let slice = candidates.as_slice();
    assert(slice@ == candidates@);
    let found = discover::suggest(name, slice);
    assert(slice@.map_values(|c: String| c@) == candidates.deep_view());
    match found {
        Some(near) => {
            m.append(" Did you mean `");
            m.append(near.as_str());
            m.append("`?");
            assert(m@ =~= prefix + (" Did you mean `"@ + near@ + "`?"@));
        },
        None => {
            if candidates.len() == 0 {
                m.append(" No templates are installed; run `busy template init`.");
            } else {
                m.append(" Available: ");
                let list = crate::strings::join_strings(candidates, ", ");
                m.append(list.as_str());
                m.append(".");
                assert(m@ =~= prefix + (" Available: "@ + crate::strings::joined(
                    candidates.deep_view(),
                    ", "@,
                ) + "."@));
            }
        },
    }
    CliError::Usage(m)
}

/// A parsed `template.toml`: a payload without its application name, which
/// comes from `--app`, plus a description.
#[derive(Debug, Clone)]
pub struct TemplateFile {
    pub description: Option<String>,
    pub priority: Option<u8>,
    pub led_notification_color: Option<Color>,
    pub elements: Vec<DisplayElement>,
}

impl TemplateFile {
    /// Supply the envelope the template deliberately omits: the owning
    /// application's name. Everything else is carried over unchanged.
    pub fn into_payload(self, app: &str) -> (res: Result<DisplayElements, CliError>)
        ensures
            if name_ok(app@) {
                res matches Ok(p) && p.application_name@ == app@ && p.priority == self.priority
                    && p.led_notification_color == self.led_notification_color && p.elements@
                    == self.elements@
            } else {
                res matches Err(e) && is_usage(e, "invalid --app: "@ + app_name_error(app@))
            },
    {
        if let Err(error) = check_app_name(app) {
            return Err(CliError::usage_with("invalid --app: ", error.as_str()));
        }
        Ok(
            DisplayElements {
                application_name: String::from_str(app),
                priority: self.priority,
                led_notification_color: self.led_notification_color,
                elements: self.elements,
            },
        )
    }
}

/// A template on disk, loaded but not yet rendered.
#[derive(Debug, Clone)]
pub struct Template {
    pub name: String,
    pub dir: String,
    pub source: String,
}

impl Template {
    /// The variables this template references, sorted.
    pub fn required_variables(&self) -> (res: Result<Vec<String>, CliError>)
        ensures
            match render::forbidden_keyword(self.source@) {
                Some(k) => res matches Err(e) && is_usage(e, render::forbidden_text(self.name@, k)),
                None => match render::referenced_variables(self.name@, self.source@) {
                    Some(set) => res matches Ok(v) && render::strictly_sorted(v.deep_view())
                        && v.deep_view().to_set() == set,
                    None => res matches Err(e) && render::is_template_error(e, self.name@),
                },
            },
    {
        render::analyse(self.name.as_str(), self.source.as_str())
    }
}

} // verus!
