//! Properties of a run, stated over the model of `search`.
use vstd::prelude::*;
use crate::plan::{Mode, Plan};
use crate::search::{
    any_true, count_true, examined, line_hits, lists, run_output, source_count, tally_of,
};

verus! {

/// A sequence has a `true` entry exactly when it counts more than zero.
pub proof fn lemma_count_positive_iff_any(s: Seq<bool>)
    ensures
        count_true(s) > 0 <==> any_true(s),
    decreases s.len(),
{
    if s.len() > 0 {
        let init = s.drop_last();
        lemma_count_positive_iff_any(init);
        if any_true(init) {
            let j = choose|j: int| 0 <= j < init.len() && init[j];
            assert(s[j]);
        }
        if any_true(s) && !s.last() {
            let j = choose|j: int| 0 <= j < s.len() && s[j];
            assert(init[j]);
        }
    }
}

/// Without early stopping every line is tested.
pub proof fn lemma_examined_all(hits: Seq<bool>)
    ensures
        examined(false, hits) == hits.len(),
    decreases hits.len(),
{
    if hits.len() > 0 {
        lemma_examined_all(hits.drop_first());
    }
}

/// With early stopping, no more lines than there are are tested, and when a
/// line is a hit the last line tested is one.
pub proof fn lemma_examined_ends_on_hit(hits: Seq<bool>)
    ensures
        examined(true, hits) <= hits.len(),
        any_true(hits) ==> examined(true, hits) >= 1 && hits[examined(true, hits) - 1],
    decreases hits.len(),
{
    if hits.len() > 0 && !hits[0] {
        let rest = hits.drop_first();
        lemma_examined_ends_on_hit(rest);
        if any_true(hits) {
            let j = choose|j: int| 0 <= j < hits.len() && hits[j];
            assert(rest[j - 1]);
        }
    }
}

/// Early termination: when the first hit of a source is on line `k + 1`
/// (index `k`), a run that leaves sources after their first hit tests
/// exactly the first `k + 1` lines and none after.
pub proof fn lemma_stops_at_first_hit(hits: Seq<bool>, k: int)
    requires
        0 <= k < hits.len(),
        hits[k],
        forall|j: int| 0 <= j < k ==> !hits[j],
    ensures
        examined(true, hits) == k + 1,
    decreases k,
{
    if k > 0 {
        let rest = hits.drop_first();
        assert(!hits[0]);
        assert forall|j: int| 0 <= j < k - 1 implies !rest[j] by {
            assert(!hits[j + 1]);
        }
        lemma_stops_at_first_hit(rest, k - 1);
    }
}

/// A count-mode run reports, for every source, the number of its lines whose
/// match test, negated under `invert`, holds.
pub proof fn lemma_count_mode_counts(
    plan: Plan,
    pattern: Seq<char>,
    srcs: Seq<(Seq<char>, Seq<Seq<char>>)>,
    i: int,
)
    requires
        plan.mode == Mode::Count,
        0 <= i < srcs.len(),
    ensures
        tally_of(plan, pattern, srcs).len() == srcs.len(),
        tally_of(plan, pattern, srcs)[i] == (
            srcs[i].0,
            count_true(line_hits(pattern, plan.invert, srcs[i].1)),
        ),
{
    let hits = line_hits(pattern, plan.invert, srcs[i].1);
    lemma_examined_all(hits);
    assert(hits.take(hits.len() as int) =~= hits);
}

/// The tally count of a source is positive exactly when one of its lines is
/// a hit, whether or not the run leaves sources after their first hit.
pub proof fn lemma_count_positive_iff_hit(plan: Plan, pattern: Seq<char>, lines: Seq<Seq<char>>)
    ensures
        source_count(plan, pattern, lines) > 0 <==> any_true(line_hits(pattern, plan.invert, lines)),
{
    let hits = line_hits(pattern, plan.invert, lines);
    let m = examined(plan.stops_after_first_hit(), hits);
    if plan.stops_after_first_hit() {
        lemma_examined_ends_on_hit(hits);
    } else {
        lemma_examined_all(hits);
    }
    let taken = hits.take(m as int);
    lemma_count_positive_iff_any(taken);
    if any_true(hits) {
        if plan.stops_after_first_hit() {
            assert(taken[m - 1]);
        } else {
            let j = choose|j: int| 0 <= j < hits.len() && hits[j];
            assert(taken[j]);
        }
    }
    if any_true(taken) {
        let j = choose|j: int| 0 <= j < taken.len() && taken[j];
        assert(hits[j]);
    }
}

/// Files-with-match lists a source exactly when one of its lines matched,
/// files-without-match exactly when none did; so for the same sources,
/// pattern and inversion, each source is listed by exactly one of the two.
pub proof fn lemma_file_lists_partition(
    with_match: Plan,
    without_match: Plan,
    pattern: Seq<char>,
    srcs: Seq<(Seq<char>, Seq<Seq<char>>)>,
    i: int,
)
    requires
        with_match.mode == Mode::FilesWithMatch,
        without_match.mode == Mode::FilesWithoutMatch,
        with_match.invert == without_match.invert,
        0 <= i < srcs.len(),
    ensures
        lists(Mode::FilesWithMatch, tally_of(with_match, pattern, srcs)[i])
            <==> any_true(line_hits(pattern, with_match.invert, srcs[i].1)),
        lists(Mode::FilesWithoutMatch, tally_of(without_match, pattern, srcs)[i])
            <==> !any_true(line_hits(pattern, with_match.invert, srcs[i].1)),
        lists(Mode::FilesWithMatch, tally_of(with_match, pattern, srcs)[i])
            != lists(Mode::FilesWithoutMatch, tally_of(without_match, pattern, srcs)[i]),
{
    lemma_count_positive_iff_hit(with_match, pattern, srcs[i].1);
    lemma_count_positive_iff_hit(without_match, pattern, srcs[i].1);
}

/// The output of a run depends on its plan, its pattern and its sources
/// alone: two runs on the same ones print the same text.
pub proof fn lemma_run_deterministic(
    plan_a: Plan,
    plan_b: Plan,
    pattern_a: Seq<char>,
    pattern_b: Seq<char>,
    srcs_a: Seq<(Seq<char>, Seq<Seq<char>>)>,
    srcs_b: Seq<(Seq<char>, Seq<Seq<char>>)>,
)
    requires
        plan_a == plan_b,
        pattern_a == pattern_b,
        srcs_a == srcs_b,
    ensures
        run_output(plan_a, pattern_a, srcs_a) == run_output(plan_b, pattern_b, srcs_b),
{
}

} // verus!
