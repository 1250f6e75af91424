//! Properties of the walk stated over its model and proved.

use vstd::prelude::*;
use vstd::utf8::encode_utf8;
use crate::classify::{bytes_view, TargetProbe, TargetState};
use crate::decision::Decision;
use crate::paths::{names, opt_view, renamed};
use crate::plan::{action_of, tally_of, Action, Options, Outcome, Tally};
use crate::walk::{
    file_outcome, file_state, files_tally, forest_files, lemma_files_tally_concat, step_for,
    tree_files, tree_tally, Entry, SourceFile, Step,
};

verus! {

/// Two decisions that agree on every field.
pub open spec fn same_decision(a: Decision, b: Decision) -> bool {
    &&& a.keep == b.keep
    &&& opt_view(a.rename_to) == opt_view(b.rename_to)
    &&& opt_view(a.transform) == opt_view(b.transform)
}

/// `t` is what making the link or writing the file of `f` leaves at its
/// destination: the transform content in a regular file, or a link to the source.
pub open spec fn materialized(t: TargetProbe, f: SourceFile) -> bool {
    &&& t.present
    &&& match f.decision.transform {
        Some(c) => t.is_file && t.link_target.is_none() && bytes_view(t.content) == Some(
            encode_utf8(c@),
        ),
        None => opt_view(t.link_target) == Some(f.source_path@),
    }
}

/// `g` is file `f` seen again after a run that made its destination: the
/// same source and decision, and for a kept file the destination as made.
pub open spec fn seen_again(g: SourceFile, f: SourceFile) -> bool {
    &&& names(g.rel_path@) == names(f.rel_path@)
    &&& g.source_path@ == f.source_path@
    &&& bytes_view(g.source_content) == bytes_view(f.source_content)
    &&& same_decision(g.decision, f.decision)
    &&& f.decision.keep ==> materialized(g.probe, f)
}

/// The counters of the first `n` trees of `s`, each summed on its own.
pub open spec fn forest_tally(s: Seq<Entry>, n: int, o: Options) -> Tally
    decreases n,
{
    if n <= 0 || n > s.len() {
        Tally::zero()
    } else {
        forest_tally(s, n - 1, o).plus(tree_tally(s[n - 1], o))
    }
}

proof fn lemma_rerun_tally(fs: Seq<SourceFile>, gs: Seq<SourceFile>, o: Options)
    requires
        !o.dry_run,
        gs.len() == fs.len(),
        forall|k: int| 0 <= k < fs.len() ==> !(#[trigger] fs[k]).probe.present,
        forall|k: int| 0 <= k < fs.len() ==> seen_again(#[trigger] gs[k], fs[k]),
    ensures
        files_tally(gs, o) == files_tally(fs, o),
        files_tally(gs, o).conflicts == 0,
        files_tally(gs, o).overrides == 0,
    decreases fs.len(),
{
    if fs.len() > 0 {
        let n = fs.len() - 1;
        lemma_rerun_tally(fs.drop_last(), gs.drop_last(), o);
        assert(seen_again(gs[n as int], fs[n as int]));
    }
}

/// Idempotence: a run on a destination where nothing is present makes every
/// kept file's destination; a second run on what it made changes nothing,
/// finds every kept file in place, and gives the same counters, none of them
/// conflicts.
pub proof fn lemma_idempotent(first: Entry, second: Entry, o: Options)
    requires
        !o.dry_run,
        tree_files(second).len() == tree_files(first).len(),
        forall|k: int|
            0 <= k < tree_files(first).len() ==> !(#[trigger] tree_files(first)[k]).probe.present,
        forall|k: int|
            0 <= k < tree_files(first).len() ==> seen_again(
                #[trigger] tree_files(second)[k],
                tree_files(first)[k],
            ),
    ensures
        forall|k: int|
            0 <= k < tree_files(first).len() ==> file_outcome(#[trigger] tree_files(first)[k], o)
                == if tree_files(first)[k].decision.keep {
                Outcome::Create
            } else {
                Outcome::Skipped
            },
        forall|k: int|
            0 <= k < tree_files(second).len() ==> file_outcome(#[trigger] tree_files(second)[k], o)
                == if tree_files(second)[k].decision.keep {
                Outcome::InPlace
            } else {
                Outcome::Skipped
            },
        forall|k: int|
            0 <= k < tree_files(second).len() ==> action_of(
                file_outcome(#[trigger] tree_files(second)[k], o),
                o.dry_run,
            ) == Action::Nothing,
        tree_tally(second, o) == tree_tally(first, o),
        tree_tally(second, o).conflicts == 0,
        tree_tally(second, o).overrides == 0,
{
    let fs = tree_files(first);
    let gs = tree_files(second);
    assert forall|k: int| 0 <= k < gs.len() implies file_outcome(#[trigger] gs[k], o)
        == if gs[k].decision.keep {
        Outcome::InPlace
    } else {
        Outcome::Skipped
    } by {
        assert(seen_again(gs[k], fs[k]));
    }
    lemma_rerun_tally(fs, gs, o);
}

/// A kept file whose destination holds something other than what is wanted,
/// with override mode off, is a conflict and its destination is left alone.
pub proof fn lemma_conflict_kept(f: SourceFile, o: Options)
    requires
        f.decision.keep,
        file_state(f) == TargetState::Differs || file_state(f) == TargetState::Identical,
        !o.override_identical,
    ensures
        file_outcome(f, o) == Outcome::Conflict,
        action_of(file_outcome(f, o), o.dry_run) == Action::Nothing,
        tally_of(file_outcome(f, o)) == (Tally { planned: 0, conflicts: 1, skips: 0, overrides: 0 }),
{
}

/// A file that its descriptor excludes is skipped and counted under skips
/// alone, its step looks at no destination, and whatever is at its
/// destination makes no difference.
pub proof fn lemma_skip(f: SourceFile, other: TargetProbe, s: Step, o: Options)
    requires
        !f.decision.keep,
        step_for(s, f, o),
    ensures
        file_outcome(f, o) == Outcome::Skipped,
        file_outcome(SourceFile { probe: other, ..f }, o) == Outcome::Skipped,
        tally_of(file_outcome(f, o)) == (Tally { planned: 0, conflicts: 0, skips: 1, overrides: 0 }),
        s.state.is_none(),
        s.action == Action::Nothing,
        s.write.is_none(),
{
}

/// A rename replaces the last component of the destination path and keeps
/// the directories above it.
pub proof fn lemma_rename(rel: Seq<Seq<char>>, x: Seq<char>)
    requires
        rel.len() > 0,
    ensures
        renamed(rel, Some(x)).len() == rel.len(),
        renamed(rel, Some(x)).last() == x,
        renamed(rel, Some(x)).drop_last() == rel.drop_last(),
{
    assert(renamed(rel, Some(x)).drop_last() =~= rel.drop_last());
}

/// A transformed file whose destination is free is written, not linked, with
/// exactly the transform content; once written, it is found in place.
pub proof fn lemma_transform_round_trip(f: SourceFile, s: Step, written: TargetProbe, o: Options)
    requires
        f.decision.keep,
        f.decision.transform is Some,
        !f.probe.present,
        !o.dry_run,
        step_for(s, f, o),
        materialized(written, f),
    ensures
        file_outcome(f, o) == Outcome::Create,
        s.action == Action::Create,
        s.write matches Some(w) && w@ == f.decision.transform->Some_0@,
        written.is_file,
        written.link_target.is_none(),
        file_outcome(SourceFile { probe: written, ..f }, o) == Outcome::InPlace,
{
}

/// The counters of a directory are the sums of the counters of its entries,
/// each subdirectory's summed in turn.
pub proof fn lemma_dir_tally(cs: Vec<Entry>, o: Options)
    ensures
        tree_tally(Entry::Dir(cs), o) == forest_tally(cs@, cs@.len() as int, o),
{
    lemma_forest_tally(cs@, cs@.len() as int, o);
}

proof fn lemma_forest_tally(s: Seq<Entry>, n: int, o: Options)
    requires
        0 <= n <= s.len(),
    ensures
        files_tally(forest_files(s, n), o) == forest_tally(s, n, o),
    decreases n,
{
    if n > 0 {
        lemma_forest_tally(s, n - 1, o);
        lemma_files_tally_concat(forest_files(s, n - 1), tree_files(s[n - 1]), o);
    }
}

} // verus!
