//! `busy asset …`: what listing, uploading and deleting assets decide and
//! say. Reading files and talking to the bar are the caller's.

use vstd::prelude::*;
use vstd::string::*;

use crate::error::{is_usage, CliError};
use crate::image::Prepared;
use crate::model::Screen;
use crate::strings::{
    decimal, decimal_string, joined, less_than, same_text, text_less, to_ascii_lowercase, trim,
    trimmed, ascii_lower,
};
use crate::values::{asset_name_error, check_asset_name, name_ok};

verus! {

broadcast use vstd::string::group_string_axioms, vstd::seq_lib::group_to_multiset_ensures;

/// One entry of the application's asset directory, as the bar lists it.
#[derive(Debug, Clone, PartialEq, Eq)]
pub struct AssetEntry {
    pub name: String,
    pub size: Option<u64>,
    pub is_dir: bool,
}

/// Whether entries are in order of name.
pub open spec fn by_name(s: Seq<AssetEntry>) -> bool {
    forall|i: int, j: int| 0 <= i < j < s.len() ==> !text_less(#[trigger] s[j].name@, #[trigger] s[i].name@)
}

/// Whether an entry is called `n`.
pub open spec fn name_is(n: Seq<char>) -> spec_fn(AssetEntry) -> bool {
    |e: AssetEntry| e.name@ == n
}

/// The entries called `n`, in the order they stand in `s`.
pub open spec fn called(s: Seq<AssetEntry>, n: Seq<char>) -> Seq<AssetEntry> {
    s.filter(name_is(n))
}

/// Putting `x` in front of entries whose names all come after its own adds
/// it last among the entries of its name, and to no other name.
proof fn lemma_insert_called(r: Seq<AssetEntry>, p: int, x: AssetEntry, n: Seq<char>)
    requires
        0 <= p <= r.len(),
        forall|q: int| p <= q < r.len() ==> text_less(x.name@, #[trigger] r[q].name@),
    ensures
        called(r.insert(p, x), n) == if x.name@ == n {
            called(r, n).push(x)
        } else {
            called(r, n)
        },
{
    let pred = name_is(n);
    let front = r.take(p);
    let back = r.skip(p);
    assert(r.insert(p, x) =~= front + seq![x] + back);
    assert(r =~= front + back);
    Seq::filter_distributes_over_add(front + seq![x], back, pred);
    Seq::filter_distributes_over_add(front, seq![x], pred);
    Seq::filter_distributes_over_add(front, back, pred);
    assert(seq![x] =~= Seq::<AssetEntry>::empty().push(x));
    Seq::<AssetEntry>::empty().lemma_filter_push(x, pred);
    assert(Seq::<AssetEntry>::empty().filter(pred) =~= Seq::<AssetEntry>::empty()) by {
        reveal(Seq::filter);
    }
    if x.name@ == n {
        assert forall|q: int| 0 <= q < back.len() implies !pred(#[trigger] back[q]) by {
            assert(back[q] == r[p + q]);
            crate::strings::lemma_text_less_irreflexive(x.name@);
        }
        back.lemma_all_neg_filter_empty(pred);
        assert(back.filter(pred) =~= Seq::<AssetEntry>::empty());
        assert(front.filter(pred) + seq![x] =~= front.filter(pred).push(x));
    }
}

/// The entries in order of name; entries of equal name keep their order.
pub fn sort_entries(entries: Vec<AssetEntry>) -> (r: Vec<AssetEntry>)
    ensures
        by_name(r@),
        r@.to_multiset() == entries@.to_multiset(),
        forall|n: Seq<char>| #[trigger] called(r@, n) == called(entries@, n),
{
    let ghost all = entries@;
    let mut rest = entries;
    let mut r: Vec<AssetEntry> = Vec::new();
    let ghost mut k: int = 0;
    while rest.len() > 0
        invariant
            0 <= k <= all.len(),
            rest@ == all.skip(k),
            by_name(r@),
            r@.to_multiset() == all.take(k).to_multiset(),
            forall|n: Seq<char>| #[trigger] called(r@, n) == called(all.take(k), n),
        decreases rest@.len(),
    {
        let x = rest.remove(0);
        assert(x == all[k]);
        let mut p: usize = r.len();
        while p > 0 && less_than(x.name.as_str(), r[p - 1].name.as_str())
            invariant
                0 <= p <= r@.len(),
                forall|q: int| p <= q < r@.len() ==> text_less(x.name@, #[trigger] r@[q].name@),
            decreases p,
        {
            p = p - 1;
        }
        let ghost old_r = r@;
        proof {
            if p > 0 {
                assert(!text_less(x.name@, old_r[p - 1].name@));
            }
        }
        r.insert(p, x);
        proof {
            let nr = r@;
            assert(nr =~= old_r.insert(p as int, x));
            assert forall|i: int, j: int| 0 <= i < j < nr.len() implies !text_less(
                #[trigger] nr[j].name@,
                #[trigger] nr[i].name@,
            ) by {
                if j < p {
                    assert(nr[i] == old_r[i] && nr[j] == old_r[j]);
                } else if j == p {
                    assert(nr[i] == old_r[i]);
                    if text_less(x.name@, old_r[i].name@) {
                        if i < p - 1 {
                            crate::strings::lemma_text_less_transitive_neg(old_r[i].name@, old_r[p - 1].name@, x.name@);
                        }
                    }
                } else if i == p {
                    assert(nr[j] == old_r[j - 1]);
                    crate::strings::lemma_text_less_irreflexive(x.name@);
                    if text_less(old_r[j - 1].name@, x.name@) {
                        crate::strings::lemma_text_less_transitive(
                            old_r[j - 1].name@,
                            x.name@,
                            old_r[j - 1].name@,
                        );
                        crate::strings::lemma_text_less_irreflexive(old_r[j - 1].name@);
                    }
                } else if i < p {
                    assert(nr[i] == old_r[i] && nr[j] == old_r[j - 1]);
                } else {
                    assert(nr[i] == old_r[i - 1] && nr[j] == old_r[j - 1]);
                }
            }
            assert(all.take(k + 1) =~= all.take(k).push(x));
            assert forall|n: Seq<char>| #[trigger] called(nr, n) == called(all.take(k + 1), n) by {
                lemma_insert_called(old_r, p as int, x, n);
                all.take(k).lemma_filter_push(x, name_is(n));
            }
            assert(rest@ =~= all.skip(k + 1));
            k = k + 1;
        }
    }
    proof {
        assert(k == all.len());
        assert(all.take(all.len() as int) =~= all);
    }
    r
}

/// One line of the listing: a directory as `name/` with size 0, a file with
/// its size (0 when the bar gave none).
pub open spec fn listing_line(e: AssetEntry) -> Seq<char> {
    if e.is_dir {
        e.name@ + "/\t0\n"@
    } else {
        e.name@ + "\t"@ + decimal(
            match e.size {
                Some(s) => s as nat,
                None => 0nat,
            },
        ) + "\n"@
    }
}

/// The lines of a listing, in order.
pub open spec fn listing_lines(files: Seq<AssetEntry>) -> Seq<char>
    decreases files.len(),
{
    if files.len() == 0 {
        Seq::empty()
    } else {
        listing_lines(files.drop_last()) + listing_line(files.last())
    }
}

/// The listing shown for `busy asset list`: a line per entry and a count,
/// or a note that there is nothing.
pub open spec fn listing_text(app: Seq<char>, files: Seq<AssetEntry>) -> Seq<char> {
    if files.len() == 0 {
        "no assets for `"@ + app + "`"@
    } else {
        listing_lines(files) + decimal(files.len()) + " asset(s)"@
    }
}

/// The text `busy asset list` prints for entries already in order.
pub fn listing(app: &str, files: &Vec<AssetEntry>) -> (s: String)
    ensures
        s@ == listing_text(app@, files@),
{
    if files.len() == 0 {
        let mut s = String::from_str("no assets for `");
        s.append(app);
        s.append("`");
        return s;
    }
    let mut s = String::new();
    let mut i: usize = 0;
    while i < files.len()
        invariant
            0 <= i <= files@.len(),
            s@ == listing_lines(files@.take(i as int)),
        decreases files@.len() - i,
    {
        let e = &files[i];
        s.append(e.name.as_str());
        if e.is_dir {
            s.append("/\t0\n");
        } else {
            s.append("\t");
            let size = match e.size {
                Some(n) => n,
                None => 0,
            };
            let digits = decimal_string(size);
            s.append(digits.as_str());
            s.append("\n");
        }
        proof {
            assert(files@.take(i + 1).drop_last() =~= files@.take(i as int));
            assert(files@.take(i + 1).last() == files@[i as int]);
        }
        i = i + 1;
    }
    proof {
        assert(files@.take(files@.len() as int) =~= files@);
    }
    let count = decimal_string(files.len() as u64);
    s.append(count.as_str());
    s.append(" asset(s)");
    s
}

/// The final component of a path, as `std::path::Path::file_name` reads
/// it, when it is valid text.
pub uninterp spec fn path_file_name(path: Seq<char>) -> Option<Seq<char>>;

/// The final component without its extension, as
/// `std::path::Path::file_stem` reads it, when it is valid text.
pub uninterp spec fn path_file_stem(path: Seq<char>) -> Option<Seq<char>>;

/// `Path::file_name`, then `OsStr::to_str`.
#[verifier::external_body]
fn file_name(path: &str) -> (r: Option<String>)
    ensures
        match path_file_name(path@) {
            Some(n) => r matches Some(s) && s@ == n,
            None => r is None,
        },
{
    std::path::Path::new(path).file_name().and_then(|s| s.to_str()).map(|s| s.to_owned())
}

/// `Path::file_stem`, then `OsStr::to_str`.
#[verifier::external_body]
fn file_stem(path: &str) -> (r: Option<String>)
    ensures
        match path_file_stem(path@) {
            Some(n) => r matches Some(s) && s@ == n,
            None => r is None,
        },
{
    std::path::Path::new(path).file_stem().and_then(|s| s.to_str()).map(|s| s.to_owned())
}

/// Why a path without a usable name is refused.
pub open spec fn no_file_name_text(path: Seq<char>) -> Seq<char> {
    path + " has no usable file name"@
}

/// Why the stored name is refused.
pub open spec fn bad_upload_name_text(name: Seq<char>) -> Seq<char> {
    "`"@ + name + "` is not a usable asset name: "@ + asset_name_error(name)
        + ". Rename the file to use only letters, digits, dot, underscore, or hyphen."@
}

/// The name an upload is stored under: the file's stem with `.png`, since
/// the bar decodes PNG only.
pub open spec fn upload_name_of(path: Seq<char>) -> Result<Seq<char>, Seq<char>> {
    match path_file_stem(path) {
        None => Err(no_file_name_text(path)),
        Some(stem) => if name_ok(stem + ".png"@) {
            Ok(stem + ".png"@)
        } else {
            Err(bad_upload_name_text(stem + ".png"@))
        },
    }
}

/// The asset name an image at `path` is stored under.
pub fn upload_name(path: &str) -> (res: Result<String, CliError>)
    ensures
        match upload_name_of(path@) {
            Ok(n) => res matches Ok(s) && s@ == n,
            Err(m) => res matches Err(e) && is_usage(e, m),
        },
{
    let stem = match file_stem(path) {
        Some(s) => s,
        None => return Err(CliError::usage_with(path, " has no usable file name")),
    };
    let mut name = stem;
    name.append(".png");
    match check_asset_name(name.as_str()) {
        Ok(()) => Ok(name),
        Err(error) => {
            let mut m = String::from_str("`");
            m.append(name.as_str());
            m.append("` is not a usable asset name: ");
            m.append(error.as_str());
            m.append(". Rename the file to use only letters, digits, dot, underscore, or hyphen.");
            Err(CliError::Usage(m))
        },
    }
}

/// The name an animation is stored under: its own file name, suffix and
/// all, since the bar takes a `.anim` byte for byte.
pub open spec fn anim_name_of(path: Seq<char>) -> Result<Seq<char>, Seq<char>> {
    match path_file_name(path) {
        None => Err(no_file_name_text(path)),
        Some(n) => if name_ok(n) {
            Ok(n)
        } else {
            Err(bad_upload_name_text(n))
        },
    }
}

/// The asset name an animation at `path` is stored under.
pub fn anim_upload_name(path: &str) -> (res: Result<String, CliError>)
    ensures
        match anim_name_of(path@) {
            Ok(n) => res matches Ok(s) && s@ == n,
            Err(m) => res matches Err(e) && is_usage(e, m),
        },
{
    let name = match file_name(path) {
        Some(n) => n,
        None => return Err(CliError::usage_with(path, " has no usable file name")),
    };
    match check_asset_name(name.as_str()) {
        Ok(()) => Ok(name),
        Err(error) => {
            let mut m = String::from_str("`");
            m.append(name.as_str());
            m.append("` is not a usable asset name: ");
            m.append(error.as_str());
            m.append(". Rename the file to use only letters, digits, dot, underscore, or hyphen.");
            Err(CliError::Usage(m))
        },
    }
}

/// What an upload reports: the stored name, and the named sections an
/// animation offers, since nothing on the bar lists them.
pub open spec fn uploaded_text(name: Seq<char>, sections: Seq<Seq<char>>) -> Seq<char> {
    "uploaded `"@ + name + "`"@ + if sections.len() > 0 {
        "; sections: "@ + joined(sections, ", "@)
    } else {
        Seq::empty()
    }
}

/// The report of a finished upload.
pub fn uploaded_message(name: &str, sections: &Vec<String>) -> (s: String)
    ensures
        s@ == uploaded_text(name@, sections.deep_view()),
{
    let mut s = String::from_str("uploaded `");
    s.append(name);
    s.append("`");
    if sections.len() > 0 {
        s.append("; sections: ");
        s.append(crate::strings::join_strings(sections, ", ").as_str());
    }
    s
}

/// What a dry-run upload of bytes stored unchanged reports.
pub open spec fn would_store_text(length: nat, name: Seq<char>) -> Seq<char> {
    "would upload "@ + decimal(length) + " bytes as `"@ + name + "`"@
}

/// The dry-run report of an upload stored byte for byte.
pub fn would_store(length: usize, name: &str) -> (s: String)
    ensures
        s@ == would_store_text(length as nat, name@),
{
    let mut s = String::from_str("would upload ");
    s.append(decimal_string(length as u64).as_str());
    s.append(" bytes as `");
    s.append(name);
    s.append("`");
    s
}

/// How a panel is named in messages.
pub open spec fn panel_name(screen: Screen) -> Seq<char> {
    match screen {
        Screen::Front => "front"@,
        Screen::Back => "back"@,
    }
}

/// The warning given when fitting changed an image's size.
pub open spec fn resize_text(p: Prepared, screen: Screen) -> Seq<char> {
    "resized "@ + decimal(p.original.0 as nat) + "x"@ + decimal(p.original.1 as nat) + " to "@
        + decimal(p.final_size.0 as nat) + "x"@ + decimal(p.final_size.1 as nat)
        + " to fit the "@ + panel_name(screen)
        + " panel; the bar refuses to draw anything larger"@
}

/// The warning for an image that was scaled, if it was.
pub fn resize_warning(p: &Prepared, screen: Screen) -> (w: Option<String>)
    ensures
        if p.original != p.final_size {
            w matches Some(s) && s@ == resize_text(*p, screen)
        } else {
            w is None
        },
{
    if !p.was_resized() {
        return None;
    }
    let mut s = String::from_str("resized ");
    s.append(decimal_string(p.original.0 as u64).as_str());
    s.append("x");
    s.append(decimal_string(p.original.1 as u64).as_str());
    s.append(" to ");
    s.append(decimal_string(p.final_size.0 as u64).as_str());
    s.append("x");
    s.append(decimal_string(p.final_size.1 as u64).as_str());
    s.append(" to fit the ");
    s.append(
        match screen {
            Screen::Front => "front",
            Screen::Back => "back",
        },
    );
    s.append(" panel; the bar refuses to draw anything larger");
    Some(s)
}

/// The warning given when the stored name differs from the file's.
pub open spec fn rename_text(original: Seq<char>, name: Seq<char>) -> Seq<char> {
    "stored as `"@ + name + "`: the bar only decodes PNG, so `"@ + original + "` was re-encoded"@
}

/// The warning for an upload stored under another name than its file's,
/// if it is.
pub fn rename_warning(path: &str, name: &str) -> (w: Option<String>)
    ensures
        ({
            let original = match path_file_name(path@) {
                Some(n) => n,
                None => Seq::<char>::empty(),
            };
            if original != name@ {
                w matches Some(s) && s@ == rename_text(original, name@)
            } else {
                w is None
            }
        }),
{
    let original = match file_name(path) {
        Some(n) => n,
        None => String::new(),
    };
    if same_text(original.as_str(), name) {
        return None;
    }
    let mut s = String::from_str("stored as `");
    s.append(name);
    s.append("`: the bar only decodes PNG, so `");
    s.append(original.as_str());
    s.append("` was re-encoded");
    Some(s)
}

/// What a dry-run upload reports.
pub open spec fn would_upload_text(p: Prepared, name: Seq<char>) -> Seq<char> {
    "would upload "@ + decimal(p.png@.len()) + " bytes as `"@ + name + "` ("@ + decimal(
        p.final_size.0 as nat,
    ) + "x"@ + decimal(p.final_size.1 as nat) + ")"@
}

/// The dry-run report of an upload.
pub fn would_upload(p: &Prepared, name: &str) -> (s: String)
    ensures
        s@ == would_upload_text(*p, name@),
{
    let mut s = String::from_str("would upload ");
    s.append(decimal_string(p.png.len() as u64).as_str());
    s.append(" bytes as `");
    s.append(name);
    s.append("` (");
    s.append(decimal_string(p.final_size.0 as u64).as_str());
    s.append("x");
    s.append(decimal_string(p.final_size.1 as u64).as_str());
    s.append(")");
    s
}

/// How an entry is named in the deletion manifest: a directory with a
/// trailing `/`.
pub open spec fn entry_label(e: AssetEntry) -> Seq<char> {
    if e.is_dir {
        e.name@ + "/"@
    } else {
        e.name@
    }
}

/// What `busy asset delete` is about to destroy.
pub open spec fn deletion_summary(app: Seq<char>, entries: Seq<AssetEntry>) -> Seq<char> {
    "this deletes ALL "@ + decimal(entries.len()) + " asset(s) for `"@ + app + "`: "@ + joined(
        entries.map_values(|e: AssetEntry| entry_label(e)),
        ", "@,
    )
}

/// The manifest shown before deleting every asset.
pub fn delete_summary(app: &str, entries: &Vec<AssetEntry>) -> (s: String)
    ensures
        s@ == deletion_summary(app@, entries@),
{
    let mut labels: Vec<String> = Vec::new();
    let mut i: usize = 0;
    while i < entries.len()
        invariant
            0 <= i <= entries@.len(),
            labels.deep_view() == entries@.take(i as int).map_values(|e: AssetEntry| entry_label(e)),
        decreases entries@.len() - i,
    {
        let mut label = entries[i].name.clone();
        if entries[i].is_dir {
            label.append("/");
        }
        let ghost before = labels.deep_view();
        labels.push(label);
        proof {
            assert(labels.deep_view() =~= before.push(label@));
            assert(entries@.take(i + 1).map_values(|e: AssetEntry| entry_label(e)) =~= before.push(
                entry_label(entries@[i as int]),
            ));
        }
        i = i + 1;
    }
    proof {
        assert(entries@.take(entries@.len() as int) =~= entries@);
    }
    let mut s = String::from_str("this deletes ALL ");
    s.append(decimal_string(entries.len() as u64).as_str());
    s.append(" asset(s) for `");
    s.append(app);
    s.append("`: ");
    let list = crate::strings::join_strings(&labels, ", ");
    s.append(list.as_str());
    s
}

/// Why a deletion is refused when nobody can be asked.
pub open spec fn unconfirmed_text(summary: Seq<char>) -> Seq<char> {
    summary + "\nRefusing to delete without confirmation. Re-run with --yes."@
}

/// The refusal for a deletion that cannot be confirmed.
pub fn unconfirmed(summary: &str) -> (e: CliError)
    ensures
        is_usage(e, unconfirmed_text(summary@)),
{
    CliError::usage_with(summary, "\nRefusing to delete without confirmation. Re-run with --yes.")
}

/// What `busy asset delete` does next, once the listing is in hand.
#[derive(Debug)]
pub enum DeleteStep {
    /// Nothing to delete: report this and stop.
    NoAssets(String),
    /// `--dry-run`: report what would go and stop.
    WouldDelete(String),
    /// No `--yes` and nobody at a terminal to ask: fail.
    Refuse(CliError),
    /// Show this manifest, ask, and delete only if the answer agrees.
    Ask(String),
    /// `--yes`: show this manifest and delete.
    Delete(String),
}

/// Decide the deletion: nothing to do on no assets; a report on a dry run;
/// otherwise, without `--yes`, ask when stdin is a terminal and refuse when
/// it is not; with `--yes`, delete, showing the manifest all the same.
pub fn delete_step(
    app: &str,
    entries: &Vec<AssetEntry>,
    dry_run: bool,
    yes: bool,
    stdin_is_terminal: bool,
) -> (s: DeleteStep)
    ensures
        entries@.len() == 0 ==> (s matches DeleteStep::NoAssets(m) && m@ == "no assets for `"@
            + app@ + "`"@),
        entries@.len() > 0 && dry_run ==> (s matches DeleteStep::WouldDelete(m) && m@
            == "would delete: "@ + deletion_summary(app@, entries@)),
        entries@.len() > 0 && !dry_run && !yes && !stdin_is_terminal ==> (s matches DeleteStep::Refuse(
            e,
        ) && is_usage(e, unconfirmed_text(deletion_summary(app@, entries@)))),
        entries@.len() > 0 && !dry_run && !yes && stdin_is_terminal ==> (s matches DeleteStep::Ask(
            m,
        ) && m@ == deletion_summary(app@, entries@)),
        entries@.len() > 0 && !dry_run && yes ==> (s matches DeleteStep::Delete(m) && m@
            == deletion_summary(app@, entries@)),
{
    if entries.len() == 0 {
        let mut m = String::from_str("no assets for `");
        m.append(app);
        m.append("`");
        return DeleteStep::NoAssets(m);
    }
    let summary = delete_summary(app, entries);
    if dry_run {
        let mut m = String::from_str("would delete: ");
        m.append(summary.as_str());
        return DeleteStep::WouldDelete(m);
    }
    if !yes {
        if !stdin_is_terminal {
            return DeleteStep::Refuse(unconfirmed(summary.as_str()));
        }
        return DeleteStep::Ask(summary);
    }
    DeleteStep::Delete(summary)
}

/// What a finished deletion reports.
pub fn deleted_message(count: usize) -> (s: String)
    ensures
        s@ == "deleted "@ + decimal(count as nat) + " asset(s)"@,
{
    let mut s = String::from_str("deleted ");
    s.append(decimal_string(count as u64).as_str());
    s.append(" asset(s)");
    s
}

/// Whether an answer to the prompt agrees: `y` or `yes` in any ASCII case,
/// surrounding white space ignored.
pub open spec fn agrees(answer: Seq<char>) -> bool {
    ascii_lower(trimmed(answer)) == "y"@ || ascii_lower(trimmed(answer)) == "yes"@
}

/// Whether the answer to "Delete them? [y/N]" agrees.
pub fn confirmed(answer: &str) -> (r: bool)
    ensures
        r == agrees(answer@),
{
    let lowered = to_ascii_lowercase(trim(answer));
    same_text(lowered.as_str(), "y") || same_text(lowered.as_str(), "yes")
}

} // verus!
