//! Checking a rendered template without contacting the device.

use vstd::prelude::*;
use vstd::string::*;

use crate::model::{DisplayElement, DisplayElements, ElementKind, ImageSource};
use crate::strings::{decimal, decimal_string, same_text};
use crate::validate::{bounds_warnings, payload_warnings};

verus! {

broadcast use vstd::string::group_string_axioms;

/// What an offline check found. Errors block a draw; warnings do not.
#[derive(Debug, Default, PartialEq, Eq)]
pub struct Report {
    pub errors: Vec<String>,
    pub warnings: Vec<String>,
}

impl Report {
    /// A report is fine exactly when it holds no error; warnings alone do
    /// not block a draw.
    pub fn is_ok(&self) -> (r: bool)
        ensures
            r == (self.errors@.len() == 0),
    {
        self.errors.len() == 0
    }
}

/// The local asset an element draws, if it is an image from this
/// application's directory.
pub open spec fn local_asset(e: DisplayElement) -> Option<Seq<char>> {
    match e.kind {
        ElementKind::Image(i) => match i.source {
            ImageSource::Asset { path } => Some(path@),
            ImageSource::Stock { .. } => None,
        },
        _ => None,
    }
}

/// The local assets the elements draw, in element order.
pub open spec fn assets_in(elements: Seq<DisplayElement>) -> Seq<Seq<char>>
    decreases elements.len(),
{
    if elements.len() == 0 {
        Seq::empty()
    } else {
        assets_in(elements.drop_last()) + match local_asset(elements.last()) {
            Some(p) => seq![p],
            None => Seq::empty(),
        }
    }
}

/// The local files a payload's image elements reference; device built-ins
/// are not local files and are left out.
pub fn referenced_assets(payload: &DisplayElements) -> (r: Vec<String>)
    ensures
        r.deep_view() == assets_in(payload.elements@),
{
    let mut r: Vec<String> = Vec::new();
    let mut i: usize = 0;
    while i < payload.elements.len()
        invariant
            0 <= i <= payload.elements@.len(),
            r.deep_view() == assets_in(payload.elements@.take(i as int)),
        decreases payload.elements@.len() - i,
    {
        let ghost before = r.deep_view();
        proof {
            assert(payload.elements@.take(i + 1).drop_last() =~= payload.elements@.take(i as int));
        }
        match &payload.elements[i].kind {
            ElementKind::Image(image) => match &image.source {
                ImageSource::Asset { path } => {
                    r.push(path.clone());
                    assert(r.deep_view() =~= before + seq![path@]);
                },
                ImageSource::Stock { .. } => {
                    assert(r.deep_view() =~= before + Seq::<Seq<char>>::empty());
                },
            },
            _ => {
                assert(r.deep_view() =~= before + Seq::<Seq<char>>::empty());
            },
        }
        i = i + 1;
    }
    proof {
        assert(payload.elements@.take(payload.elements@.len() as int) =~= payload.elements@);
    }
    r
}

/// The ids of the elements, in order.
pub open spec fn element_ids(elements: Seq<DisplayElement>) -> Seq<Seq<char>> {
    elements.map_values(|e: DisplayElement| e.id@)
}

/// How often `id` occurs.
pub open spec fn occurrences(ids: Seq<Seq<char>>, id: Seq<char>) -> nat
    decreases ids.len(),
{
    if ids.len() == 0 {
        0
    } else {
        occurrences(ids.drop_last(), id) + if ids.last() == id {
            1nat
        } else {
            0nat
        }
    }
}

/// Whether position `i` holds the first occurrence of its id.
pub open spec fn first_occurrence(ids: Seq<Seq<char>>, i: int) -> bool {
    forall|k: int| 0 <= k < i ==> ids[k] != ids[i]
}

/// Why a shared id is an error.
pub open spec fn duplicate_text(id: Seq<char>, count: nat) -> Seq<char> {
    "duplicate element id `"@ + id + "`: "@ + decimal(count)
        + " elements share it. Ids are the handle for `--keep` updates, so a template's own elements would overwrite each other."@
}

/// One error per shared id, at its first occurrence among the first `n`.
pub open spec fn duplicate_errors(ids: Seq<Seq<char>>, n: int) -> Seq<Seq<char>>
    decreases n,
{
    if n <= 0 {
        Seq::empty()
    } else {
        duplicate_errors(ids, n - 1) + if first_occurrence(ids, n - 1) && occurrences(
            ids,
            ids[n - 1],
        ) > 1 {
            seq![duplicate_text(ids[n - 1], occurrences(ids, ids[n - 1]))]
        } else {
            Seq::empty()
        }
    }
}

/// Why a referenced file that is not there is an error.
pub open spec fn missing_text(asset: Seq<char>, dir: Seq<char>) -> Seq<char> {
    "references `"@ + asset + "`, which is not in "@ + dir + "."@
}

/// One error per referenced asset that is not present, in order.
pub open spec fn missing_errors(assets: Seq<Seq<char>>, present: Seq<bool>, dir: Seq<char>) -> Seq<
    Seq<char>,
>
    decreases assets.len(),
{
    if assets.len() == 0 {
        Seq::empty()
    } else {
        missing_errors(assets.drop_last(), present.take(assets.len() - 1), dir) + if present[assets.len()
            - 1] {
            Seq::<Seq<char>>::empty()
        } else {
            seq![missing_text(assets.last(), dir)]
        }
    }
}

proof fn lemma_occurrences_step(ids: Seq<Seq<char>>, n: int, id: Seq<char>)
    requires
        0 <= n < ids.len(),
    ensures
        occurrences(ids.take(n + 1), id) == occurrences(ids.take(n), id) + if ids[n] == id {
            1nat
        } else {
            0nat
        },
{
    assert(ids.take(n + 1).drop_last() =~= ids.take(n));
}

fn count_id(elements: &Vec<DisplayElement>, id: &str) -> (c: usize)
    ensures
        c == occurrences(element_ids(elements@), id@),
{
    let ghost ids = element_ids(elements@);
    let mut c: usize = 0;
    let mut k: usize = 0;
    while k < elements.len()
        invariant
            ids == element_ids(elements@),
            0 <= k <= elements@.len(),
            c == occurrences(ids.take(k as int), id@),
            c <= k,
        decreases elements@.len() - k,
    {
        proof {
            lemma_occurrences_step(ids, k as int, id@);
        }
        if same_text(elements[k].id.as_str(), id) {
            c = c + 1;
        }
        k = k + 1;
    }
    proof {
        assert(ids.take(elements@.len() as int) =~= ids);
    }
    c
}

fn is_first(elements: &Vec<DisplayElement>, i: usize) -> (r: bool)
    requires
        i < elements@.len(),
    ensures
        r == first_occurrence(element_ids(elements@), i as int),
{
    let ghost ids = element_ids(elements@);
    let mut k: usize = 0;
    while k < i
        invariant
            ids == element_ids(elements@),
            i < elements@.len(),
            0 <= k <= i,
            forall|q: int| 0 <= q < k ==> ids[q] != ids[i as int],
        decreases i - k,
    {
        if same_text(elements[k].id.as_str(), elements[i].id.as_str()) {
            assert(ids[k as int] == elements@[k as int].id@);
            assert(ids[i as int] == elements@[i as int].id@);
            return false;
        }
        assert(ids[k as int] == elements@[k as int].id@);
        assert(ids[i as int] == elements@[i as int].id@);
        k = k + 1;
    }
    true
}

/// Check a rendered template offline: a shared element id is an error, as
/// is a referenced local file that is not in `dir` (`present` says, for
/// each of `referenced_assets` in order, whether the file is there); the
/// bounds warnings come along as warnings.
pub fn offline(payload: &DisplayElements, dir: &str, present: &[bool]) -> (report: Report)
    requires
        present@.len() == assets_in(payload.elements@).len(),
    ensures
        report.errors.deep_view() == duplicate_errors(
            element_ids(payload.elements@),
            payload.elements@.len() as int,
        ) + missing_errors(assets_in(payload.elements@), present@, dir@),
        report.warnings.deep_view() == payload_warnings(payload.elements@),
{
    let ghost ids = element_ids(payload.elements@);
    let n = payload.elements.len();
    let mut errors: Vec<String> = Vec::new();
    let mut i: usize = 0;
    while i < n
        invariant
            ids == element_ids(payload.elements@),
            n == payload.elements@.len(),
            0 <= i <= n,
            errors.deep_view() == duplicate_errors(ids, i as int),
        decreases n - i,
    {
        if is_first(&payload.elements, i) {
            let count = count_id(&payload.elements, payload.elements[i].id.as_str());
            if count > 1 {
                let mut m = String::from_str("duplicate element id `");
                m.append(payload.elements[i].id.as_str());
                m.append("`: ");
                let digits = decimal_string(count as u64);
                m.append(digits.as_str());
                m.append(
                    " elements share it. Ids are the handle for `--keep` updates, so a template's own elements would overwrite each other.",
                );
                let ghost before = errors.deep_view();
                errors.push(m);
                assert(errors.deep_view() =~= before + seq![m@]);
            } else {
                assert(errors.deep_view() =~= errors.deep_view() + Seq::<Seq<char>>::empty());
            }
        } else {
            assert(errors.deep_view() =~= errors.deep_view() + Seq::<Seq<char>>::empty());
        }
        i = i + 1;
    }
    let assets = referenced_assets(payload);
    let ghost dups = errors.deep_view();
    let ghost all = assets.deep_view();
    let mut k: usize = 0;
    while k < assets.len()
        invariant
            all == assets.deep_view(),
            all == assets_in(payload.elements@),
            present@.len() == all.len(),
            0 <= k <= all.len(),
            errors.deep_view() == dups + missing_errors(all.take(k as int), present@.take(k as int), dir@),
        decreases all.len() - k,
    {
        let ghost before = errors.deep_view();
        proof {
            let t = all.take(k + 1);
            assert(t.drop_last() =~= all.take(k as int));
            assert(present@.take(k + 1).take(k as int) =~= present@.take(k as int));
            assert(present@.take(k + 1)[k as int] == present@[k as int]);
        }
        if !present[k] {
            let mut m = String::from_str("references `");
            m.append(assets[k].as_str());
            m.append("`, which is not in ");
            m.append(dir);
            m.append(".");
            errors.push(m);
            assert(errors.deep_view() =~= before + seq![m@]);
        } else {
            assert(errors.deep_view() =~= before + Seq::<Seq<char>>::empty());
        }
        k = k + 1;
    }
    proof {
        assert(all.take(all.len() as int) =~= all);
        assert(present@.take(all.len() as int) =~= present@);
    }
    let warnings = bounds_warnings(payload);
    Report { errors, warnings }
}

} // verus!
