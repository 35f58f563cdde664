//! The search pipeline: sources are begun one after another, their lines are
//! tested in order, and hits go to the sinks that the plan activates.
use vstd::prelude::*;
use crate::hit_handling::{hit_line, HitCounter, HitHandler, HitPrinter};
use crate::pattern::{glob_compiles, partial_match, Matcher};
use crate::plan::{modes_conflict, plan_of, select_plan, ConfigError, Mode, Options, Plan};
use crate::text::{decimal, push_char, push_decimal};

verus! {

/// One source: its name and its lines.
pub struct Source {
    pub name: String,
    pub lines: Vec<String>,
}

impl View for Source {
    type V = (Seq<char>, Seq<Seq<char>>);

    open spec fn view(&self) -> (Seq<char>, Seq<Seq<char>>) {
        (self.name@, self.lines@.map_values(|l: String| l@))
    }
}

/// The sources of a run as plain values.
pub open spec fn sources_view(sources: Seq<Source>) -> Seq<(Seq<char>, Seq<Seq<char>>)> {
    sources.map_values(|s: Source| s@)
}

/// For each line, whether it is a hit: its match test, negated under `invert`.
pub open spec fn line_hits(pattern: Seq<char>, invert: bool, lines: Seq<Seq<char>>) -> Seq<bool> {
    lines.map_values(|l: Seq<char>| partial_match(pattern, l) != invert)
}

/// How many lines are tested: all of them, or, when the source is left
/// after its first hit, those up to and including the first hit.
pub open spec fn examined(stop_first: bool, hits: Seq<bool>) -> nat
    decreases hits.len(),
{
    if hits.len() == 0 {
        0
    } else if stop_first && hits[0] {
        1
    } else {
        1 + examined(stop_first, hits.drop_first())
    }
}

/// The number of `true` entries.
pub open spec fn count_true(s: Seq<bool>) -> nat
    decreases s.len(),
{
    if s.len() == 0 {
        0
    } else {
        count_true(s.drop_last()) + if s.last() { 1nat } else { 0nat }
    }
}

/// Whether some entry is `true`.
pub open spec fn any_true(s: Seq<bool>) -> bool {
    exists|j: int| 0 <= j < s.len() && #[trigger] s[j]
}

/// The hits of one source's lines under a plan.
pub open spec fn source_hits(plan: Plan, pattern: Seq<char>, lines: Seq<Seq<char>>) -> Seq<bool> {
    line_hits(pattern, plan.invert, lines)
}

/// How many lines of a source a run tests.
pub open spec fn source_examined(plan: Plan, pattern: Seq<char>, lines: Seq<Seq<char>>) -> nat {
    examined(plan.stops_after_first_hit(), source_hits(plan, pattern, lines))
}

/// The tally count of one source: the hits among the tested lines.
pub open spec fn source_count(plan: Plan, pattern: Seq<char>, lines: Seq<Seq<char>>) -> nat {
    count_true(source_hits(plan, pattern, lines).take(source_examined(plan, pattern, lines) as int))
}

/// The tally of a run: each source's name with its count, in source order.
pub open spec fn tally_of(plan: Plan, pattern: Seq<char>, srcs: Seq<(Seq<char>, Seq<Seq<char>>)>) -> Seq<(Seq<char>, nat)> {
    srcs.map_values(|s: (Seq<char>, Seq<Seq<char>>)| (s.0, source_count(plan, pattern, s.1)))
}

/// How many lines of each source a run tests.
pub open spec fn examined_of(plan: Plan, pattern: Seq<char>, srcs: Seq<(Seq<char>, Seq<Seq<char>>)>) -> Seq<nat> {
    srcs.map_values(|s: (Seq<char>, Seq<Seq<char>>)| source_examined(plan, pattern, s.1))
}

/// The printed hits among the first `j` lines of a source.
pub open spec fn printed_lines(plan: Plan, name: Seq<char>, lines: Seq<Seq<char>>, hits: Seq<bool>, j: nat) -> Seq<char>
    decreases j,
{
    if j == 0 {
        Seq::empty()
    } else {
        printed_lines(plan, name, lines, hits, (j - 1) as nat) + if hits[j - 1] {
            hit_line(plan.print_file_path, plan.print_line, true, name, j, lines[j - 1])
        } else {
            Seq::empty()
        }
    }
}

/// The printed hits of a source, over the lines that the run tests.
pub open spec fn source_printed(plan: Plan, pattern: Seq<char>, src: (Seq<char>, Seq<Seq<char>>)) -> Seq<char> {
    printed_lines(plan, src.0, src.1, source_hits(plan, pattern, src.1), source_examined(plan, pattern, src.1))
}

/// The printed hits of all sources, in source order.
pub open spec fn printed_of(plan: Plan, pattern: Seq<char>, srcs: Seq<(Seq<char>, Seq<Seq<char>>)>) -> Seq<char>
    decreases srcs.len(),
{
    if srcs.len() == 0 {
        Seq::empty()
    } else {
        printed_of(plan, pattern, srcs.drop_last()) + source_printed(plan, pattern, srcs.last())
    }
}

/// Whether an aggregate mode lists a tally entry by its name.
pub open spec fn lists(mode: Mode, e: (Seq<char>, nat)) -> bool {
    (mode == Mode::FilesWithMatch && e.1 > 0) || (mode == Mode::FilesWithoutMatch && e.1 == 0)
}

/// The final output line of one tally entry.
pub open spec fn entry_line(mode: Mode, e: (Seq<char>, nat)) -> Seq<char> {
    if mode == Mode::Count {
        (e.0 + seq![':'] + decimal(e.1)).push('\n')
    } else if lists(mode, e) {
        e.0.push('\n')
    } else {
        Seq::empty()
    }
}

/// The final aggregate output over a tally, in tally order.
pub open spec fn aggregate(mode: Mode, tally: Seq<(Seq<char>, nat)>) -> Seq<char>
    decreases tally.len(),
{
    if tally.len() == 0 {
        Seq::empty()
    } else {
        aggregate(mode, tally.drop_last()) + entry_line(mode, tally.last())
    }
}

/// The whole output of a run.
pub open spec fn run_output(plan: Plan, pattern: Seq<char>, srcs: Seq<(Seq<char>, Seq<Seq<char>>)>) -> Seq<char> {
    if plan.mode == Mode::Normal {
        printed_of(plan, pattern, srcs)
    } else {
        aggregate(plan.mode, tally_of(plan, pattern, srcs))
    }
}

pub proof fn lemma_count_true_le(s: Seq<bool>)
    ensures
        count_true(s) <= s.len(),
    decreases s.len(),
{
    if s.len() > 0 {
        lemma_count_true_le(s.drop_last());
    }
}

proof fn lemma_count_take_step(s: Seq<bool>, j: int)
    requires
        0 <= j < s.len(),
    ensures
        count_true(s.take(j + 1)) == count_true(s.take(j)) + if s[j] { 1nat } else { 0nat },
{
    assert(s.take(j + 1).drop_last() =~= s.take(j));
}

proof fn lemma_examined_step(stop_first: bool, s: Seq<bool>, j: int)
    requires
        0 <= j < s.len(),
    ensures
        examined(stop_first, s.subrange(j, s.len() as int)) == if stop_first && s[j] {
            1nat
        } else {
            1 + examined(stop_first, s.subrange(j + 1, s.len() as int))
        },
{
    assert(s.subrange(j, s.len() as int).drop_first() =~= s.subrange(j + 1, s.len() as int));
}

/// The state of a run: the plan, the predicate, the active sinks and where
/// the scan of the current source stands.
pub struct Search {
    plan: Plan,
    matcher: Matcher,
    printer: Option<HitPrinter>,
    counter: Option<HitCounter>,
    current: String,
    line_no: usize,
    stopped: bool,
    examined: Ghost<Seq<nat>>,
}

impl Search {
    pub closed spec fn plan(&self) -> Plan {
        self.plan
    }

    pub closed spec fn pattern(&self) -> Seq<char> {
        self.matcher.pattern()
    }

    /// The tally so far (empty when the tally is not active).
    pub closed spec fn tally(&self) -> Seq<(Seq<char>, nat)> {
        match self.counter {
            Some(c) => c@,
            None => Seq::empty(),
        }
    }

    /// Printed output not yet taken (empty when the printer is not active).
    pub closed spec fn printed(&self) -> Seq<char> {
        match self.printer {
            Some(p) => p.printed(),
            None => Seq::empty(),
        }
    }

    /// For each source begun, the number of lines tested so far.
    pub closed spec fn examined_counts(&self) -> Seq<nat> {
        self.examined@
    }

    /// The number of sources begun.
    pub open spec fn sources_begun(&self) -> nat {
        self.examined_counts().len()
    }

    /// The name of the current source.
    pub closed spec fn current(&self) -> Seq<char> {
        self.current@
    }

    /// Lines read of the current source.
    pub closed spec fn lines_read(&self) -> nat {
        self.line_no as nat
    }

    /// Whether the current source has been left early.
    pub closed spec fn stopped(&self) -> bool {
        self.stopped
    }

    pub closed spec fn wf(&self) -> bool {
        &&& (self.printer is Some <==> self.plan.prints_hits())
        &&& (self.counter is Some <==> self.plan.tallies())
        &&& (self.printer matches Some(p) ==> p.prints_file_path() == self.plan.print_file_path
            && p.prints_line() == self.plan.print_line && p.prints_hit())
        &&& (self.counter matches Some(c) ==> c@.len() == self.examined@.len())
        &&& (self.examined@.len() > 0 ==> self.examined@.last() == self.line_no)
        &&& (self.counter matches Some(c) ==> (c@.len() > 0 ==> c@.last().1 <= self.line_no
            && c@.last().0 == self.current@))
        &&& (self.stopped ==> self.plan.stops_after_first_hit())
    }

    /// One line of the current source has been recorded, `matched` telling
    /// whether it matched the pattern: the sinks got it if it is a hit, and
    /// `keep_reading` says whether the source is read on.
    pub open spec fn recorded(pre: Search, post: Search, line: Seq<char>, matched: bool, keep_reading: bool) -> bool {
        let hit = matched != pre.plan().invert;
        &&& post.wf()
        &&& post.plan() == pre.plan()
        &&& post.pattern() == pre.pattern()
        &&& post.current() == pre.current()
        &&& post.lines_read() == pre.lines_read() + 1
        &&& post.examined_counts() == pre.examined_counts().update(
            pre.sources_begun() - 1,
            pre.lines_read() + 1,
        )
        &&& post.tally() == if hit && pre.plan().tallies() {
            pre.tally().update(pre.tally().len() - 1, (pre.tally().last().0, pre.tally().last().1 + 1))
        } else {
            pre.tally()
        }
        &&& post.printed() == if hit && pre.plan().prints_hits() {
            pre.printed() + hit_line(
                pre.plan().print_file_path,
                pre.plan().print_line,
                true,
                pre.current(),
                pre.lines_read() + 1,
                line,
            )
        } else {
            pre.printed()
        }
        &&& post.stopped() == (hit && pre.plan().stops_after_first_hit())
        &&& keep_reading == !post.stopped()
    }

    /// A run that has begun no source yet.
    pub fn new(plan: Plan, matcher: Matcher) -> (r: Search)
        ensures
            r.wf(),
            r.plan() == plan,
            r.pattern() == matcher.pattern(),
            r.tally() == Seq::<(Seq<char>, nat)>::empty(),
            r.printed() == Seq::<char>::empty(),
            r.sources_begun() == 0,
    {
        let printer = if plan.uses_printer() {
            Some(HitPrinter::new(plan.print_file_path, plan.print_line, true))
        } else {
            None
        };
        let counter = if plan.uses_printer() {
            None
        } else {
            Some(HitCounter::new())
        };
        Search {
            plan,
            matcher,
            printer,
            counter,
            current: String::new(),
            line_no: 0,
            stopped: false,
            examined: Ghost(Seq::empty()),
        }
    }

    /// Starts the next source: every active sink is told of it.
    pub fn begin_source(&mut self, name: &str)
        requires
            old(self).wf(),
        ensures
            final(self).wf(),
            final(self).plan() == old(self).plan(),
            final(self).pattern() == old(self).pattern(),
            final(self).examined_counts() == old(self).examined_counts().push(0),
            final(self).tally() == if old(self).plan().tallies() {
                old(self).tally().push((name@, 0nat))
            } else {
                old(self).tally()
            },
            final(self).printed() == old(self).printed(),
            final(self).current() == name@,
            final(self).lines_read() == 0,
            !final(self).stopped(),
    {
        match &mut self.printer {
            Some(p) => p.start_new_file(name),
            None => {}
        }
        match &mut self.counter {
            Some(c) => c.start_new_file(name),
            None => {}
        }
        self.current = String::from_str(name);
        self.line_no = 0;
        self.stopped = false;
        self.examined = Ghost(self.examined@.push(0));
    }

    /// Records the next line of the current source, given whether it matched
    /// the pattern. Returns whether the source should be read on.
    pub fn record_line(&mut self, line: &str, matched: bool) -> (keep_reading: bool)
        requires
            old(self).wf(),
            old(self).sources_begun() > 0,
            !old(self).stopped(),
            old(self).lines_read() < usize::MAX,
        ensures
            Search::recorded(*old(self), *final(self), line@, matched, keep_reading),
    {
        self.line_no = self.line_no + 1;
        self.examined = Ghost(self.examined@.update(self.examined@.len() - 1, self.line_no as nat));
        let hit = matched != self.plan.invert;
        if hit {
            let line_no = self.line_no;
            match &mut self.printer {
                Some(p) => p.handle_hit(self.current.as_str(), line_no, line),
                None => {}
            }
            match &mut self.counter {
                Some(c) => c.handle_hit(self.current.as_str(), line_no, line),
                None => {}
            }
            if self.plan.skips_after_first_hit() {
                self.stopped = true;
            }
        }
        !self.stopped
    }

    /// Tests the next line of the current source against the pattern and
    /// records it. Returns whether the source should be read on.
    pub fn feed_line(&mut self, line: &str) -> (keep_reading: bool)
        requires
            old(self).wf(),
            old(self).sources_begun() > 0,
            !old(self).stopped(),
            old(self).lines_read() < usize::MAX,
        ensures
            Search::recorded(*old(self), *final(self), line@, partial_match(old(self).pattern(), line@), keep_reading),
    {
        let matched = self.matcher.matches_partially(line);
        self.record_line(line, matched)
    }

    /// Hands out the printed output not yet taken.
    pub fn take_output(&mut self) -> (r: String)
        requires
            old(self).wf(),
        ensures
            r@ == old(self).printed(),
            final(self).wf(),
            final(self).plan() == old(self).plan(),
            final(self).pattern() == old(self).pattern(),
            final(self).tally() == old(self).tally(),
            final(self).printed() == Seq::<char>::empty(),
            final(self).examined_counts() == old(self).examined_counts(),
    {
        match &mut self.printer {
            Some(p) => p.take_output(),
            None => String::new(),
        }
    }

    /// The final aggregate output of the plan's mode, read from the tally.
    pub fn finish(&self) -> (r: String)
        requires
            self.wf(),
        ensures
            r@ == aggregate(self.plan().mode, self.tally()),
    {
        let mut out = String::new();
        match &self.counter {
            Some(c) => {
                let ghost all = c@;
                let mut it = c.iter();
                let ghost mut k: int = 0;
                loop
                    invariant
                        it.wf(),
                        0 <= k <= all.len(),
                        it.remaining() == all.subrange(k, all.len() as int),
                        out@ == aggregate(self.plan.mode, all.take(k)),
                    ensures
                        out@ == aggregate(self.plan.mode, all),
                    decreases it.remaining().len(),
                {
                    match it.next() {
                        Some(e) => {
                            push_entry(&mut out, self.plan.mode, e.0, e.1);
                            proof {
                                assert(all.take(k + 1).drop_last() =~= all.take(k));
                                assert(all[k] == (e.0@, e.1 as nat));
                                k = k + 1;
                                assert(it.remaining() =~= all.subrange(k, all.len() as int));
                            }
                        }
                        None => {
                            assert(all.take(k) =~= all);
                            break;
                        }
                    }
                }
            }
            None => {}
        }
        out
    }
}

/// Appends the final output line of one tally entry.
fn push_entry(out: &mut String, mode: Mode, name: &str, count: usize)
    ensures
        final(out)@ == old(out)@ + entry_line(mode, (name@, count as nat)),
{
    match mode {
        Mode::Count => {
            out.append(name);
            push_char(out, ':');
            push_decimal(out, count);
            push_char(out, '\n');
            assert(final(out)@ =~= old(out)@ + entry_line(mode, (name@, count as nat)));
        }
        Mode::FilesWithMatch | Mode::FilesWithoutMatch => {
            let listed = match mode {
                Mode::FilesWithMatch => count > 0,
                _ => count == 0,
            };
            if listed {
                out.append(name);
                push_char(out, '\n');
            }
            assert(final(out)@ =~= old(out)@ + entry_line(mode, (name@, count as nat)));
        }
        Mode::Normal => {
            assert(final(out)@ =~= old(out)@ + entry_line(mode, (name@, count as nat)));
        }
    }
}

/// Scans every source in order with the plan's sinks.
pub fn search_all(plan: Plan, matcher: Matcher, sources: &Vec<Source>) -> (s: Search)
    ensures
        s.wf(),
        s.plan() == plan,
        s.pattern() == matcher.pattern(),
        s.sources_begun() == sources@.len(),
        s.examined_counts() == examined_of(plan, matcher.pattern(), sources_view(sources@)),
        s.tally() == if plan.tallies() {
            tally_of(plan, matcher.pattern(), sources_view(sources@))
        } else {
            Seq::empty()
        },
        s.printed() == if plan.prints_hits() {
            printed_of(plan, matcher.pattern(), sources_view(sources@))
        } else {
            Seq::empty()
        },
{
    let ghost pat = matcher.pattern();
    let ghost srcs = sources_view(sources@);
    let ghost stop = plan.stops_after_first_hit();
    let mut s = Search::new(plan, matcher);
    let mut k: usize = 0;
    assert(srcs.take(0) =~= Seq::<(Seq<char>, Seq<Seq<char>>)>::empty());
    assert(examined_of(plan, pat, srcs.take(0)) =~= Seq::<nat>::empty());
    assert(tally_of(plan, pat, srcs.take(0)) =~= Seq::<(Seq<char>, nat)>::empty());
    while k < sources.len()
        invariant
            s.wf(),
            s.plan() == plan,
            s.pattern() == pat,
            srcs == sources_view(sources@),
            stop == plan.stops_after_first_hit(),
            k <= sources@.len(),
            s.examined_counts() == examined_of(plan, pat, srcs.take(k as int)),
            s.tally() == if plan.tallies() { tally_of(plan, pat, srcs.take(k as int)) } else { Seq::empty() },
            s.printed() == if plan.prints_hits() { printed_of(plan, pat, srcs.take(k as int)) } else { Seq::empty() },
        decreases sources@.len() - k,
    {
        let src = &sources[k];
        let ghost name = srcs[k as int].0;
        let ghost lines = srcs[k as int].1;
        let ghost hits = source_hits(plan, pat, lines);
        let ghost ex0 = s.examined_counts();
        let ghost tally0 = s.tally();
        let ghost printed0 = s.printed();
        assert(lines == src.lines@.map_values(|l: String| l@));
        s.begin_source(src.name.as_str());
        let mut j: usize = 0;
        let mut keep = true;
        assert(hits.subrange(0, hits.len() as int) =~= hits);
        assert(hits.take(0) =~= Seq::<bool>::empty());
        assert(printed0 + printed_lines(plan, name, lines, hits, 0) =~= printed0);
        while j < src.lines.len() && keep
            invariant
                s.wf(),
                s.plan() == plan,
                s.pattern() == pat,
                stop == plan.stops_after_first_hit(),
                s.sources_begun() > 0,
                s.current() == name,
                lines == src.lines@.map_values(|l: String| l@),
                hits == source_hits(plan, pat, lines),
                hits.len() == src.lines@.len(),
                j <= src.lines@.len(),
                s.lines_read() == j,
                keep == !s.stopped(),
                keep ==> examined(stop, hits) == j + examined(stop, hits.subrange(j as int, hits.len() as int)),
                !keep ==> examined(stop, hits) == j,
                s.examined_counts() == ex0.push(j as nat),
                s.tally() == if plan.tallies() { tally0.push((name, count_true(hits.take(j as int)))) } else { tally0 },
                s.printed() == if plan.prints_hits() { printed0 + printed_lines(plan, name, lines, hits, j as nat) } else { printed0 },
            decreases src.lines@.len() - j,
        {
            proof {
                lemma_examined_step(stop, hits, j as int);
                lemma_count_take_step(hits, j as int);
                lemma_count_true_le(hits.take(j as int));
            }
            let ghost pre = s;
            keep = s.feed_line(src.lines[j].as_str());
            j = j + 1;
            proof {
                assert(ex0.push((j - 1) as nat).update(ex0.len() as int, j as nat) =~= ex0.push(j as nat));
                if plan.tallies() && hits[j - 1] {
                    assert(pre.tally().update(pre.tally().len() - 1, (pre.tally().last().0, pre.tally().last().1 + 1))
                        =~= tally0.push((name, count_true(hits.take(j as int)))));
                }
                if plan.prints_hits() {
                    assert(printed0 + printed_lines(plan, name, lines, hits, j as nat)
                        =~= pre.printed() + (if hits[j - 1] {
                            hit_line(plan.print_file_path, plan.print_line, true, name, j as nat, lines[j - 1])
                        } else {
                            Seq::empty()
                        }));
                }
            }
        }
        proof {
            if keep {
                assert(hits.subrange(j as int, hits.len() as int) =~= Seq::<bool>::empty());
            }
            let taken = srcs.take(k + 1);
            assert(taken.drop_last() =~= srcs.take(k as int));
            assert(examined_of(plan, pat, taken) =~= ex0.push(j as nat));
            if plan.tallies() {
                assert(tally_of(plan, pat, taken) =~= tally0.push((name, count_true(hits.take(j as int)))));
            }
            if plan.prints_hits() {
                assert(printed_of(plan, pat, taken) =~= printed0 + printed_lines(plan, name, lines, hits, j as nat));
            }
        }
        k = k + 1;
    }
    assert(srcs.take(k as int) =~= srcs);
    s
}

/// Runs the whole search over in-memory sources and returns the output:
/// the printed hits in normal mode, else the aggregate lines.
pub fn run(plan: Plan, matcher: Matcher, sources: &Vec<Source>) -> (r: String)
    ensures
        r@ == run_output(plan, matcher.pattern(), sources_view(sources@)),
{
    let mut s = search_all(plan, matcher, sources);
    let mut out = s.take_output();
    let tail = s.finish();
    out.append(tail.as_str());
    assert(out@ =~= run_output(plan, matcher.pattern(), sources_view(sources@)));
    out
}

/// Compiles the pattern, resolves the options and runs the search over the
/// sources, returning the whole output.
pub fn search_sources(o: &Options, pattern: &str, sources: &Vec<Source>) -> (r: Result<String, ConfigError>)
    ensures
        !glob_compiles(pattern@) <==> r matches Err(ConfigError::PatternCompile(_)),
        glob_compiles(pattern@) && o.force_print_filename && o.force_no_print_filename
            <==> r matches Err(ConfigError::ConflictingFilenameOptions),
        glob_compiles(pattern@) && !(o.force_print_filename && o.force_no_print_filename)
            && modes_conflict(*o) <==> r matches Err(ConfigError::ConflictingModeOptions),
        r matches Ok(out) ==> out@ == run_output(
            plan_of(*o, sources@.len()),
            pattern@,
            sources_view(sources@),
        ),
{
    let matcher = match Matcher::new(pattern) {
        Ok(m) => m,
        Err(msg) => {
            return Err(ConfigError::PatternCompile(msg));
        },
    };
    let plan = match select_plan(o, sources.len()) {
        Ok(p) => p,
        Err(e) => {
            return Err(e);
        },
    };
    Ok(run(plan, matcher, sources))
}

} // verus!
