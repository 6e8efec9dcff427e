//! Warnings on their way to the user.
//!
//! Without `--json` a warning goes to stderr as it happens; with `--json` it
//! is held and attached to the one JSON document the command prints, so
//! stdout stays a single parseable value. `--quiet` drops ordinary
//! warnings, but never one that must be shown (such as what a destructive
//! command is about to destroy).

use vstd::prelude::*;
use vstd::string::*;

verus! {

/// How a command reports to the user, and the warnings held for `--json`.
#[derive(Debug)]
pub struct Emitter {
    pub json: bool,
    pub quiet: bool,
    /// Warnings held for the JSON output, oldest first.
    pub warnings: Vec<String>,
}

/// The stderr line for a warning outside `--json`.
pub open spec fn warning_line(message: Seq<char>) -> Seq<char> {
    "busy: warning: "@ + message
}

impl Emitter {
    /// The warnings held for the JSON output, oldest first.
    pub open spec fn pending(&self) -> Seq<Seq<char>> {
        self.warnings.deep_view()
    }

    /// An emitter holding no warnings.
    pub fn new(json: bool, quiet: bool) -> (e: Emitter)
        ensures
            e.json == json,
            e.quiet == quiet,
            e.pending() == Seq::<Seq<char>>::empty(),
    {
        let e = Emitter { json, quiet, warnings: Vec::new() };
        assert(e.pending() =~= Seq::<Seq<char>>::empty());
        e
    }

    /// A warning, unless `--quiet`: held under `--json`, otherwise the line
    /// to print on stderr is returned.
    pub fn warn(&mut self, message: &str) -> (line: Option<String>)
        ensures
            final(self).json == old(self).json,
            final(self).quiet == old(self).quiet,
            old(self).quiet ==> line is None && final(self).pending() == old(self).pending(),
            !old(self).quiet && old(self).json ==> line is None
                && final(self).pending() == old(self).pending().push(message@),
            !old(self).quiet && !old(self).json ==> (line matches Some(l) && l@ == warning_line(message@))
                && final(self).pending() == old(self).pending(),
    {
        if self.quiet {
            return None;
        }
        self.warn_always(message)
    }

    /// A warning that `--quiet` does not silence: held under `--json`,
    /// otherwise the line to print on stderr is returned.
    pub fn warn_always(&mut self, message: &str) -> (line: Option<String>)
        ensures
            final(self).json == old(self).json,
            final(self).quiet == old(self).quiet,
            old(self).json ==> line is None
                && final(self).pending() == old(self).pending().push(message@),
            !old(self).json ==> (line matches Some(l) && l@ == warning_line(message@))
                && final(self).pending() == old(self).pending(),
    {
        if self.json {
            let ghost before = self.warnings.deep_view();
            self.warnings.push(String::from_str(message));
            assert(self.warnings.deep_view() =~= before.push(message@));
            None
        } else {
            let mut line = String::from_str("busy: warning: ");
            line.append(message);
            Some(line)
        }
    }

    /// Hand over the held warnings, leaving none.
    pub fn take_warnings(&mut self) -> (taken: Vec<String>)
        ensures
            taken.deep_view() == old(self).pending(),
            final(self).pending() == Seq::<Seq<char>>::empty(),
            final(self).json == old(self).json,
            final(self).quiet == old(self).quiet,
    {
        let mut taken: Vec<String> = Vec::new();
        std::mem::swap(&mut taken, &mut self.warnings);
        assert(self.warnings.deep_view() =~= Seq::<Seq<char>>::empty());
        taken
    }
}

} // verus!
