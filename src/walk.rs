//! The recursive walk over a snapshot of the source tree, folding counters
//! bottom-up and listing one step per source file.

use vstd::prelude::*;
use crate::classify::{bytes_view, classify, target_state, TargetProbe, TargetState};
use crate::decision::Decision;
use crate::paths::{names, opt_view, renamed, target_rel_path};
use crate::plan::{
    action_of, outcome_of, plan_action, plan_outcome, tally_of, Action, Options, Outcome, Tally,
    WalkCounts,
};

verus! {

/// A source file with everything the walk needs to decide about it.
#[derive(Debug)]
pub struct SourceFile {
    /// Its path relative to the source root, one component per element.
    pub rel_path: Vec<String>,
    /// Its path as a link to it would point.
    pub source_path: String,
    /// Its bytes, if they were read.
    pub source_content: Option<Vec<u8>>,
    /// What its descriptor decided, or the default when it has none.
    pub decision: Decision,
    /// What is at its destination; not looked at when the decision excludes it.
    pub probe: TargetProbe,
}

/// A node of the source tree: a file, or a directory with its entries.
#[derive(Debug)]
pub enum Entry {
    File(SourceFile),
    Dir(Vec<Entry>),
}

/// What the walk decided for one source file.
#[derive(Debug)]
pub struct Step {
    /// The destination path relative to the destination root, rename applied;
    /// for a skipped file, its own relative path.
    pub target: Vec<String>,
    /// The source path a link points to.
    pub source_path: String,
    /// The destination's state; `None` when the file is skipped.
    pub state: Option<TargetState>,
    pub outcome: Outcome,
    /// The change to make.
    pub action: Action,
    /// The content to write instead of linking, for a transformed file.
    pub write: Option<String>,
}

/// The destination state of a kept file.
pub open spec fn file_state(f: SourceFile) -> TargetState {
    target_state(
        opt_view(f.decision.transform),
        f.source_path@,
        bytes_view(f.source_content),
        f.probe,
    )
}

/// The outcome of a source file under `o`.
pub open spec fn file_outcome(f: SourceFile, o: Options) -> Outcome {
    outcome_of(f.decision.keep, file_state(f), o.dry_run, o.override_identical)
}

/// `s` is the step that the walk owes for file `f` under `o`.
pub open spec fn step_for(s: Step, f: SourceFile, o: Options) -> bool {
    &&& s.outcome == file_outcome(f, o)
    &&& s.action == action_of(s.outcome, o.dry_run)
    &&& s.state == if f.decision.keep {
        Some(file_state(f))
    } else {
        None
    }
    &&& names(s.target@) == renamed(
        names(f.rel_path@),
        if f.decision.keep {
            opt_view(f.decision.rename_to)
        } else {
            None
        },
    )
    &&& s.source_path@ == f.source_path@
    &&& opt_view(s.write) == if f.decision.keep {
        opt_view(f.decision.transform)
    } else {
        None
    }
}

/// The files of a tree, in walk order.
pub open spec fn tree_files(e: Entry) -> Seq<SourceFile>
    decreases e,
{
    match e {
        Entry::File(f) => seq![f],
        Entry::Dir(cs) => forest_files(cs@, cs@.len() as int),
    }
}

/// The files of the first `n` trees of `s`, in walk order.
pub open spec fn forest_files(s: Seq<Entry>, n: int) -> Seq<SourceFile>
    decreases s, n,
{
    if n <= 0 || n > s.len() {
        seq![]
    } else {
        forest_files(s, n - 1) + tree_files(s[n - 1])
    }
}

/// The counters owed for a sequence of files.
pub open spec fn files_tally(fs: Seq<SourceFile>, o: Options) -> Tally
    decreases fs.len(),
{
    if fs.len() == 0 {
        Tally::zero()
    } else {
        files_tally(fs.drop_last(), o).plus(tally_of(file_outcome(fs.last(), o)))
    }
}

/// The counters owed for a tree.
pub open spec fn tree_tally(e: Entry, o: Options) -> Tally {
    files_tally(tree_files(e), o)
}

/// Every file of the tree has a non-empty relative path.
pub open spec fn tree_wf(e: Entry) -> bool {
    forall|k: int| 0 <= k < tree_files(e).len() ==> (#[trigger] tree_files(e)[k]).rel_path@.len()
        > 0
}

/// Counters of concatenated file sequences add up.
pub proof fn lemma_files_tally_concat(a: Seq<SourceFile>, b: Seq<SourceFile>, o: Options)
    ensures
        files_tally(a + b, o) == files_tally(a, o).plus(files_tally(b, o)),
    decreases b.len(),
{
    if b.len() == 0 {
        assert(a + b =~= a);
    } else {
        assert((a + b).drop_last() =~= a + b.drop_last());
        lemma_files_tally_concat(a, b.drop_last(), o);
    }
}

/// Each file is counted once, under planned, conflicts or skips; overrides
/// are among the planned.
pub proof fn lemma_files_tally_bounds(fs: Seq<SourceFile>, o: Options)
    ensures
        files_tally(fs, o).planned + files_tally(fs, o).conflicts + files_tally(fs, o).skips
            == fs.len(),
        files_tally(fs, o).overrides <= files_tally(fs, o).planned,
    decreases fs.len(),
{
    if fs.len() > 0 {
        lemma_files_tally_bounds(fs.drop_last(), o);
    }
}

proof fn lemma_forest_files_grow(s: Seq<Entry>, i: int, n: int)
    requires
        0 <= i <= n <= s.len(),
    ensures
        forest_files(s, i).len() <= forest_files(s, n).len(),
    decreases n - i,
{
    if i < n {
        lemma_forest_files_grow(s, i, n - 1);
    }
}

proof fn lemma_forest_files_prefix(s: Seq<Entry>, i: int, n: int, k: int)
    requires
        0 <= i <= n <= s.len(),
        0 <= k < forest_files(s, i).len(),
    ensures
        forest_files(s, i).len() <= forest_files(s, n).len(),
        forest_files(s, n)[k] == forest_files(s, i)[k],
    decreases n - i,
{
    lemma_forest_files_grow(s, i, n);
    if i < n {
        lemma_forest_files_prefix(s, i, n - 1, k);
        lemma_forest_files_grow(s, i, n - 1);
    }
}

/// Plans one source file: an excluded file is skipped without its
/// destination being classified.
pub fn plan_file(f: &SourceFile, opts: &Options) -> (r: Step)
    requires
        f.rel_path@.len() > 0,
    ensures
        step_for(r, *f, *opts),
{
    if !f.decision.keep {
        return Step {
            target: target_rel_path(&f.rel_path, &None),
            source_path: f.source_path.clone(),
            state: None,
            outcome: Outcome::Skipped,
            action: Action::Nothing,
            write: None,
        };
    }
    let state = classify(&f.decision, f.source_path.as_str(), &f.source_content, &f.probe);
    let outcome = plan_outcome(true, state, opts);
    let write = match &f.decision.transform {
        Some(c) => Some(c.clone()),
        None => None,
    };
    Step {
        target: target_rel_path(&f.rel_path, &f.decision.rename_to),
        source_path: f.source_path.clone(),
        state: Some(state),
        outcome,
        action: plan_action(outcome, opts.dry_run),
        write,
    }
}

/// Walks a tree depth-first, appending one step per file to `steps` and
/// returning the counters of the tree, each subdirectory's folded in.
pub fn walk(e: &Entry, opts: &Options, steps: &mut Vec<Step>) -> (r: WalkCounts)
    requires
        tree_wf(*e),
        tree_files(*e).len() <= usize::MAX,
    ensures
        r@ == tree_tally(*e, *opts),
        final(steps)@.len() == old(steps)@.len() + tree_files(*e).len(),
        forall|k: int| 0 <= k < old(steps)@.len() ==> final(steps)@[k] == old(steps)@[k],
        forall|k: int|
            0 <= k < tree_files(*e).len() ==> step_for(
                #[trigger] final(steps)@[old(steps)@.len() + k],
                tree_files(*e)[k],
                *opts,
            ),
    decreases e,
{
    match e {
        Entry::File(f) => {
            assert(tree_files(*e)[0] == *f);
            let s = plan_file(f, opts);
            let r = WalkCounts::of_outcome(s.outcome);
            steps.push(s);
            proof {
                let fs = tree_files(*e);
                assert(fs.drop_last() =~= Seq::<SourceFile>::empty());
                assert(fs.last() == *f);
                assert(files_tally(fs.drop_last(), *opts) == Tally::zero());
                assert(files_tally(fs, *opts) == Tally::zero().plus(tally_of(file_outcome(*f, *opts))));
            }
            r
        },
        Entry::Dir(cs) => {
            let ghost start = steps@.len();
            let ghost all = tree_files(*e);
            let mut acc = WalkCounts::zero();
            let mut i: usize = 0;
            while i < cs.len()
                invariant
                    all == tree_files(*e),
                    *e == Entry::Dir(*cs),
                    all == forest_files(cs@, cs@.len() as int),
                    tree_wf(*e),
                    all.len() <= usize::MAX,
                    0 <= i <= cs@.len(),
                    acc@ == files_tally(forest_files(cs@, i as int), *opts),
                    start == old(steps)@.len(),
                    steps@.len() == start + forest_files(cs@, i as int).len(),
                    forall|k: int| 0 <= k < start ==> steps@[k] == old(steps)@[k],
                    forall|k: int|
                        0 <= k < forest_files(cs@, i as int).len() ==> step_for(
                            #[trigger] steps@[start + k],
                            forest_files(cs@, i as int)[k],
                            *opts,
                        ),
                decreases cs@.len() - i,
            {
                let ghost before = forest_files(cs@, i as int);
                let ghost sub = tree_files(cs@[i as int]);
                let ghost mid = steps@;
                assert(forest_files(cs@, i + 1) == before + sub);
                proof {
                    lemma_forest_files_grow(cs@, i + 1, cs@.len() as int);
                    assert forall|k: int| 0 <= k < sub.len() implies (#[trigger] sub[k]).rel_path@.len() > 0 by {
                        assert(forest_files(cs@, i + 1)[before.len() + k] == sub[k]);
                        lemma_forest_files_prefix(cs@, i + 1, cs@.len() as int, before.len() + k);
                    }
                }
                let c = walk(&cs[i], opts, steps);
                proof {
                    lemma_files_tally_concat(before, sub, *opts);
                    lemma_files_tally_bounds(before + sub, *opts);
                    assert forall|k: int| 0 <= k < forest_files(cs@, i + 1).len() implies step_for(
                        #[trigger] steps@[start + k],
                        forest_files(cs@, i + 1)[k],
                        *opts,
                    ) by {
                        if k < before.len() {
                            assert(steps@[start + k] == mid[start + k]);
                        } else {
                            assert(steps@[mid.len() + (k - before.len())] == steps@[start + k]);
                        }
                    }
                }
                acc.add(&c);
                i = i + 1;
            }
            acc
        },
    }
}

} // verus!
