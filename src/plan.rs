//! What to do with one source file, and the counters that a walk folds.

use vstd::prelude::*;
use crate::classify::{TargetState};
use crate::color::Colorize;

verus! {

/// The run's configuration, fixed for the whole walk.
#[derive(Clone, Copy, Debug)]
pub struct Options {
    /// Decide and report only; change nothing.
    pub dry_run: bool,
    /// Replace a destination file whose bytes equal the source's.
    pub override_identical: bool,
    /// Report entries that need no change too.
    pub verbose: bool,
    pub color: Colorize,
}

/// The terminal outcome of one source file.
#[derive(Clone, Copy, Debug, PartialEq, Eq, Structural)]
pub enum Outcome {
    /// Excluded by its descriptor.
    Skipped,
    /// The destination already holds what is wanted.
    InPlace,
    /// The destination is free; the link or file is (or would be) made.
    Create,
    /// An identical destination file is replaced.
    Override,
    /// The destination is occupied and is left alone.
    Conflict,
}

/// The change made at the destination.
#[derive(Clone, Copy, Debug, PartialEq, Eq, Structural)]
pub enum Action {
    Nothing,
    /// Make the link or write the file where nothing is.
    Create,
    /// Remove the file there, then make the link or write the file.
    Replace,
}

/// The outcome for a file that its descriptor keeps or not, whose
/// destination is in `state`.
pub open spec fn outcome_of(keep: bool, state: TargetState, dry_run: bool, override_identical: bool) -> Outcome {
    if !keep {
        Outcome::Skipped
    } else {
        match state {
            TargetState::Absent => Outcome::Create,
            TargetState::InPlace => Outcome::InPlace,
            TargetState::Identical => if override_identical && !dry_run {
                Outcome::Override
            } else {
                Outcome::Conflict
            },
            TargetState::Differs => Outcome::Conflict,
        }
    }
}

/// The change that an outcome calls for.
pub open spec fn action_of(o: Outcome, dry_run: bool) -> Action {
    match o {
        Outcome::Create => if dry_run {
            Action::Nothing
        } else {
            Action::Create
        },
        Outcome::Override => Action::Replace,
        _ => Action::Nothing,
    }
}

/// Counters in the model: planned, conflicts, skips, overrides.
pub struct Tally {
    pub planned: nat,
    pub conflicts: nat,
    pub skips: nat,
    pub overrides: nat,
}

impl Tally {
    pub open spec fn zero() -> Tally {
        Tally { planned: 0, conflicts: 0, skips: 0, overrides: 0 }
    }

    pub open spec fn plus(self, o: Tally) -> Tally {
        Tally {
            planned: self.planned + o.planned,
            conflicts: self.conflicts + o.conflicts,
            skips: self.skips + o.skips,
            overrides: self.overrides + o.overrides,
        }
    }
}

/// What one outcome adds to the counters.
pub open spec fn tally_of(o: Outcome) -> Tally {
    match o {
        Outcome::Skipped => Tally { planned: 0, conflicts: 0, skips: 1, overrides: 0 },
        Outcome::InPlace | Outcome::Create => Tally {
            planned: 1,
            conflicts: 0,
            skips: 0,
            overrides: 0,
        },
        Outcome::Override => Tally { planned: 1, conflicts: 0, skips: 0, overrides: 1 },
        Outcome::Conflict => Tally { planned: 0, conflicts: 1, skips: 0, overrides: 0 },
    }
}

/// The counters of a walk.
#[derive(Clone, Copy, Debug, PartialEq, Eq, Structural)]
pub struct WalkCounts {
    pub planned: usize,
    pub conflicts: usize,
    pub skips: usize,
    pub overrides: usize,
}

impl View for WalkCounts {
    type V = Tally;

    open spec fn view(&self) -> Tally {
        Tally {
            planned: self.planned as nat,
            conflicts: self.conflicts as nat,
            skips: self.skips as nat,
            overrides: self.overrides as nat,
        }
    }
}

/// Decides the outcome of a file from its descriptor's verdict and its
/// destination's state.
pub fn plan_outcome(keep: bool, state: TargetState, opts: &Options) -> (r: Outcome)
    ensures
        r == outcome_of(keep, state, opts.dry_run, opts.override_identical),
{
    if !keep {
        Outcome::Skipped
    } else {
        match state {
            TargetState::Absent => Outcome::Create,
            TargetState::InPlace => Outcome::InPlace,
            TargetState::Identical => if opts.override_identical && !opts.dry_run {
                Outcome::Override
            } else {
                Outcome::Conflict
            },
            TargetState::Differs => Outcome::Conflict,
        }
    }
}

/// The change that outcome `o` calls for.
pub fn plan_action(o: Outcome, dry_run: bool) -> (r: Action)
    ensures
        r == action_of(o, dry_run),
{
    match o {
        Outcome::Create => if dry_run {
            Action::Nothing
        } else {
            Action::Create
        },
        Outcome::Override => Action::Replace,
        _ => Action::Nothing,
    }
}

impl WalkCounts {
    pub fn zero() -> (r: WalkCounts)
        ensures
            r@ == Tally::zero(),
    {
        WalkCounts { planned: 0, conflicts: 0, skips: 0, overrides: 0 }
    }

    /// The counters of one outcome.
    pub fn of_outcome(o: Outcome) -> (r: WalkCounts)
        ensures
            r@ == tally_of(o),
    {
        match o {
            Outcome::Skipped => WalkCounts { planned: 0, conflicts: 0, skips: 1, overrides: 0 },
            Outcome::InPlace | Outcome::Create => WalkCounts {
                planned: 1,
                conflicts: 0,
                skips: 0,
                overrides: 0,
            },
            Outcome::Override => WalkCounts { planned: 1, conflicts: 0, skips: 0, overrides: 1 },
            Outcome::Conflict => WalkCounts { planned: 0, conflicts: 1, skips: 0, overrides: 0 },
        }
    }

    /// Folds `o` into these counters.
    pub fn add(&mut self, o: &WalkCounts)
        requires
            old(self).planned + o.planned <= usize::MAX,
            old(self).conflicts + o.conflicts <= usize::MAX,
            old(self).skips + o.skips <= usize::MAX,
            old(self).overrides + o.overrides <= usize::MAX,
        ensures
            final(self)@ == old(self)@.plus(o@),
    {
        self.planned = self.planned + o.planned;
        self.conflicts = self.conflicts + o.conflicts;
        self.skips = self.skips + o.skips;
        self.overrides = self.overrides + o.overrides;
    }
}

} // verus!
