//! Running the tests of several sections through an implementation under
//! test, scale by scale.

use crate::entry::Test;
use crate::json::{json_parse, json_render, parse_json, render_json};
use crate::section::{all_sections, scaled, section_name, text_eq, Scale, Section};
use vstd::prelude::*;

verus! {

/// The materialized tests of one section.
pub struct Suite {
    /// The section
    pub section: Section,
    /// Its tests, in list order
    pub tests: Vec<Test>,
}

/// The counters of a finished run.
#[derive(Debug, Clone, Copy, PartialEq, Eq, Structural)]
pub struct Summary {
    /// Every test considered
    pub total: usize,
    /// The tests that were executed and passed
    pub run: usize,
    /// The tests left out because their scale was not requested
    pub skipped: usize,
}

/// The first test that failed, which ended the run.
#[derive(Debug)]
pub struct RunError {
    /// The section of the failed test
    pub section: Section,
    /// The name of the failed test
    pub name: String,
    /// What the implementation under test reported
    pub message: String,
    /// The place in the schedule at which the run stopped
    pub position: usize,
}

/// Whether a test belongs to a pass: its scale is `want`, or, with
/// `negate`, anything else.
pub open spec fn keeps(t: Test, want: Option<Scale>, negate: bool) -> bool {
    (t.scale == want) != negate
}

/// The positions of the tests that a pass keeps, in list order.
pub open spec fn positions(tests: Seq<Test>, want: Option<Scale>, negate: bool) -> Seq<int>
    decreases tests.len(),
{
    if tests.len() == 0 {
        Seq::empty()
    } else if keeps(tests.last(), want, negate) {
        positions(tests.drop_last(), want, negate).push(tests.len() - 1)
    } else {
        positions(tests.drop_last(), want, negate)
    }
}

/// The positions of the tests of a section in the order they run.
///
/// An unscaled section runs every test in list order. A scaled section runs,
/// when no scale was requested, every test but the full ones and then the
/// full ones; when a scale was requested, only the tests of that scale.
pub open spec fn run_order(section: Section, tests: Seq<Test>, scale: Option<Scale>) -> Seq<int> {
    if !scaled(section) {
        upto(tests.len() as int)
    } else {
        match scale {
            None => positions(tests, Some(Scale::Full), true) + positions(
                tests,
                Some(Scale::Full),
                false,
            ),
            Some(s) => positions(tests, Some(s), false),
        }
    }
}

/// The tests of a section left out of the run.
pub open spec fn skipped_in(section: Section, tests: Seq<Test>, scale: Option<Scale>) -> int {
    if scaled(section) && scale is Some {
        tests.len() - run_order(section, tests, scale).len()
    } else {
        0
    }
}

/// The number of tests over all suites.
pub open spec fn total_of(suites: Seq<Suite>) -> int
    decreases suites.len(),
{
    if suites.len() == 0 {
        0
    } else {
        total_of(suites.drop_last()) + suites.last().tests@.len()
    }
}

/// The number of tests left out over all suites.
pub open spec fn skipped_of(suites: Seq<Suite>, scale: Option<Scale>) -> int
    decreases suites.len(),
{
    if suites.len() == 0 {
        0
    } else {
        skipped_of(suites.drop_last(), scale) + skipped_in(
            suites.last().section,
            suites.last().tests@,
            scale,
        )
    }
}

/// A count as the counters hold it: saturated at the largest `usize`.
pub open spec fn capped(n: int) -> int {
    if n > usize::MAX {
        usize::MAX as int
    } else {
        n
    }
}

/// The positions `0..n`.
pub open spec fn upto(n: int) -> Seq<int> {
    Seq::new(n as nat, |i: int| i)
}

/// Positions in suite `k`, as pairs of the suite's index and the position.
pub open spec fn tagged(order: Seq<int>, k: int) -> Seq<(int, int)> {
    order.map_values(|p: int| (k, p))
}

/// The tests a run hands to the implementation under test, in order, as
/// pairs of a suite's index and a test's position in that suite: the suites
/// in the order given, each as `run_order` lays it out.
pub open spec fn schedule(suites: Seq<Suite>, scale: Option<Scale>) -> Seq<(int, int)>
    decreases suites.len(),
{
    if suites.len() == 0 {
        Seq::empty()
    } else {
        schedule(suites.drop_last(), scale) + tagged(
            run_order(suites.last().section, suites.last().tests@, scale),
            suites.len() - 1,
        )
    }
}

/// The pairs of a plan, as integers.
pub open spec fn pairs_view(v: Seq<(usize, usize)>) -> Seq<(int, int)> {
    v.map_values(|x: (usize, usize)| (x.0 as int, x.1 as int))
}

/// The test at a scheduled pair.
pub open spec fn scheduled_test(suites: Seq<Suite>, at: (int, int)) -> Test {
    suites[at.0].tests@[at.1]
}

/// Whether a run at `scale` executes test `t` of `section`.
pub open spec fn runs(section: Section, t: Test, scale: Option<Scale>) -> bool {
    !scaled(section) || match scale {
        None => true,
        Some(s) => t.scale == Some(s),
    }
}

/// What a run returns: on success the counters, with `run` the number of
/// scheduled tests; success wherever nothing is scheduled; on failure the
/// place in the schedule at which the run stopped, and that test's identity.
pub open spec fn run_outcome(
    suites: Seq<Suite>,
    scale: Option<Scale>,
    r: Result<Summary, RunError>,
) -> bool {
    &&& r matches Ok(s) ==> {
        &&& s.run == schedule(suites, scale).len()
        &&& s.total == capped(total_of(suites))
        &&& s.skipped == capped(skipped_of(suites, scale))
        &&& total_of(suites) <= usize::MAX ==> s.run == s.total - s.skipped
    }
    &&& schedule(suites, scale).len() == 0 ==> r is Ok
    &&& r matches Err(e) ==> {
        &&& e.position < schedule(suites, scale).len()
        &&& e.section == suites[schedule(suites, scale)[e.position as int].0].section
        &&& e.name == scheduled_test(suites, schedule(suites, scale)[e.position as int]).name
    }
}


/// What `positions` holds.
pub proof fn lemma_positions(tests: Seq<Test>, want: Option<Scale>, negate: bool)
    ensures
        positions(tests, want, negate).len() <= tests.len(),
        forall|i: int|
            positions(tests, want, negate).contains(i) <==> 0 <= i < tests.len() && keeps(
                tests[i],
                want,
                negate,
            ),
        forall|a: int, b: int|
            0 <= a < b < positions(tests, want, negate).len() ==> positions(tests, want, negate)[a]
                < positions(tests, want, negate)[b],
        positions(tests, want, negate).len() + positions(tests, want, !negate).len()
            == tests.len(),
    decreases tests.len(),
{
    if tests.len() > 0 {
        let q = tests.drop_last();
        lemma_positions(q, want, negate);
        lemma_positions(q, want, !negate);
        let p = positions(tests, want, negate);
        let pq = positions(q, want, negate);
        assert forall|i: int| p.contains(i) <==> 0 <= i < tests.len() && keeps(
            tests[i],
            want,
            negate,
        ) by {
            if 0 <= i < q.len() {
                assert(q[i] == tests[i]);
            }
            if p.contains(i) && !pq.contains(i) {
                assert(i == tests.len() - 1);
            }
            if i == tests.len() - 1 && keeps(tests[i], want, negate) {
                assert(p[p.len() - 1] == i);
            }
            if pq.contains(i) {
                let j = choose|j: int| 0 <= j < pq.len() && pq[j] == i;
                assert(p[j] == i);
            }
        }
        assert forall|a: int, b: int| 0 <= a < b < p.len() implies p[a] < p[b] by {
            if b < pq.len() {
                assert(p[a] == pq[a] && p[b] == pq[b]);
            } else {
                assert(p[a] == pq[a]);
                assert(pq.contains(pq[a]));
            }
        }
    }
}

/// With the full scale requested, a scaled section runs only full tests;
/// each tiny test is left out and counted once among the skipped.
pub proof fn lemma_full_run_skips_tiny(section: Section, tests: Seq<Test>)
    requires
        scaled(section),
    ensures
        forall|p: int|
            run_order(section, tests, Some(Scale::Full)).contains(p) ==> tests[p].scale == Some(
                Scale::Full,
            ),
        forall|i: int|
            0 <= i < tests.len() && tests[i].scale == Some(Scale::Tiny) ==> !run_order(
                section,
                tests,
                Some(Scale::Full),
            ).contains(i) && positions(tests, Some(Scale::Full), true).contains(i),
        skipped_in(section, tests, Some(Scale::Full)) == positions(
            tests,
            Some(Scale::Full),
            true,
        ).len(),
{
    lemma_positions(tests, Some(Scale::Full), false);
    lemma_positions(tests, Some(Scale::Full), true);
}

/// With no scale requested, a scaled section runs every tiny test, and each
/// before every full test.
pub proof fn lemma_tiny_before_full(section: Section, tests: Seq<Test>)
    requires
        scaled(section),
    ensures
        forall|i: int|
            0 <= i < tests.len() && tests[i].scale == Some(Scale::Tiny) ==> run_order(
                section,
                tests,
                None,
            ).contains(i),
        forall|a: int, b: int|
            0 <= a < b < run_order(section, tests, None).len() ==> !(tests[run_order(
                section,
                tests,
                None,
            )[a]].scale == Some(Scale::Full) && tests[run_order(section, tests, None)[b]].scale
                == Some(Scale::Tiny)),
        skipped_in(section, tests, None) == 0,
{
    lemma_positions(tests, Some(Scale::Full), false);
    lemma_positions(tests, Some(Scale::Full), true);
    let first = positions(tests, Some(Scale::Full), true);
    let second = positions(tests, Some(Scale::Full), false);
    let order = run_order(section, tests, None);
    assert(order == first + second);
    assert forall|i: int|
        0 <= i < tests.len() && tests[i].scale == Some(Scale::Tiny) implies order.contains(i) by {
        assert(first.contains(i));
        let j = choose|j: int| 0 <= j < first.len() && first[j] == i;
        assert(order[j] == i);
    }
    assert forall|a: int, b: int| 0 <= a < b < order.len() implies !(tests[order[a]].scale == Some(
        Scale::Full,
    ) && tests[order[b]].scale == Some(Scale::Tiny)) by {
        if a < first.len() {
            assert(order[a] == first[a]);
            assert(first.contains(first[a]));
        } else {
            assert(order[a] == second[a - first.len()]);
            assert(order[b] == second[b - first.len()]);
            assert(second.contains(second[b - first.len()]));
        }
    }
}

/// What a section's run order holds: each position once, in range; the
/// positions of exactly the tests that the run executes; and, with the
/// skipped tests, every test of the section.
pub proof fn lemma_run_order(section: Section, tests: Seq<Test>, scale: Option<Scale>)
    ensures
        forall|i: int|
            0 <= i < run_order(section, tests, scale).len() ==> 0 <= #[trigger] run_order(
                section,
                tests,
                scale,
            )[i] < tests.len(),
        run_order(section, tests, scale).no_duplicates(),
        run_order(section, tests, scale).len() + skipped_in(section, tests, scale) == tests.len(),
        forall|p: int|
            0 <= p < tests.len() ==> (run_order(section, tests, scale).contains(p) <==> runs(
                section,
                #[trigger] tests[p],
                scale,
            )),
{
    let order = run_order(section, tests, scale);
    let full = Some(Scale::Full);
    lemma_positions(tests, full, false);
    lemma_positions(tests, full, true);
    if !scaled(section) {
        assert forall|p: int| 0 <= p < tests.len() implies order.contains(p) by {
            assert(order[p] == p);
        }
    } else {
        match scale {
            None => {
                let first = positions(tests, full, true);
                let second = positions(tests, full, false);
                assert forall|i: int| 0 <= i < order.len() implies 0 <= #[trigger] order[i]
                    < tests.len() by {
                    if i < first.len() {
                        assert(first.contains(first[i]));
                    } else {
                        assert(second.contains(second[i - first.len()]));
                    }
                }
                assert forall|a: int, b: int|
                    0 <= a < order.len() && 0 <= b < order.len() && a != b implies order[a]
                    != order[b] by {
                    if a < first.len() && b < first.len() {
                    } else if a >= first.len() && b >= first.len() {
                    } else if a < first.len() {
                        assert(first.contains(first[a]));
                        assert(second.contains(second[b - first.len()]));
                    } else {
                        assert(second.contains(second[a - first.len()]));
                        assert(first.contains(first[b]));
                    }
                }
                assert forall|p: int| 0 <= p < tests.len() implies order.contains(p) by {
                    if keeps(tests[p], full, true) {
                        lemma_in_concat(first, second, p);
                    } else {
                        lemma_in_concat2(first, second, p);
                    }
                }
            },
            Some(s) => {
                lemma_positions(tests, Some(s), false);
                let o = positions(tests, Some(s), false);
                assert forall|i: int| 0 <= i < order.len() implies 0 <= #[trigger] order[i]
                    < tests.len() by {
                    assert(o.contains(o[i]));
                }
            },
        }
    }
}

/// What the schedule holds: each pair once, naming a test that its suite's
/// run order holds; every test that the run executes; the suites one after
/// another in the order given; and, with the skipped tests, every test.
pub proof fn lemma_schedule(suites: Seq<Suite>, scale: Option<Scale>)
    ensures
        forall|i: int|
            0 <= i < schedule(suites, scale).len() ==> {
                let at = #[trigger] schedule(suites, scale)[i];
                &&& 0 <= at.0 < suites.len()
                &&& 0 <= at.1 < suites[at.0].tests@.len()
                &&& run_order(suites[at.0].section, suites[at.0].tests@, scale).contains(at.1)
            },
        forall|i: int, j: int|
            0 <= i < j < schedule(suites, scale).len() ==> schedule(suites, scale)[i].0
                <= schedule(suites, scale)[j].0,
        schedule(suites, scale).no_duplicates(),
        forall|k: int, p: int|
            0 <= k < suites.len() && 0 <= p < suites[k].tests@.len() && runs(
                suites[k].section,
                suites[k].tests@[p],
                scale,
            ) ==> schedule(suites, scale).contains((k, p)),
        schedule(suites, scale).len() + skipped_of(suites, scale) == total_of(suites),
    decreases suites.len(),
{
    if suites.len() > 0 {
        let q = suites.drop_last();
        let n = suites.len() - 1;
        let last = suites.last();
        lemma_schedule(q, scale);
        lemma_run_order(last.section, last.tests@, scale);
        let prev = schedule(q, scale);
        let order = run_order(last.section, last.tests@, scale);
        let block = tagged(order, n);
        let sched = schedule(suites, scale);
        assert(sched == prev + block);
        assert forall|i: int| 0 <= i < sched.len() implies {
            let at = #[trigger] sched[i];
            &&& 0 <= at.0 < suites.len()
            &&& 0 <= at.1 < suites[at.0].tests@.len()
            &&& run_order(suites[at.0].section, suites[at.0].tests@, scale).contains(at.1)
        } by {
            if i < prev.len() {
                assert(sched[i] == prev[i]);
                assert(q[prev[i].0] == suites[prev[i].0]);
            } else {
                let j = i - prev.len();
                assert(sched[i] == (n, order[j]));
                assert(suites[n] == last);
                assert(order.contains(order[j]));
            }
        }
        assert forall|i: int, j: int| 0 <= i < j < sched.len() implies sched[i].0 <= sched[j].0 by {
            if j >= prev.len() {
                assert(sched[j].0 == n);
                if i < prev.len() {
                    assert(sched[i] == prev[i]);
                }
            } else {
                assert(sched[i] == prev[i] && sched[j] == prev[j]);
            }
        }
        assert forall|i: int, j: int|
            0 <= i < sched.len() && 0 <= j < sched.len() && i != j implies sched[i]
            != sched[j] by {
            if i < prev.len() && j < prev.len() {
                assert(sched[i] == prev[i] && sched[j] == prev[j]);
            } else if i >= prev.len() && j >= prev.len() {
                assert(sched[i] == (n, order[i - prev.len()]));
                assert(sched[j] == (n, order[j - prev.len()]));
            } else if i < prev.len() {
                assert(sched[i] == prev[i]);
                assert(sched[j].0 == n);
            } else {
                assert(sched[j] == prev[j]);
                assert(sched[i].0 == n);
            }
        }
        assert forall|k: int, p: int|
            0 <= k < suites.len() && 0 <= p < suites[k].tests@.len() && runs(
                suites[k].section,
                suites[k].tests@[p],
                scale,
            ) implies sched.contains((k, p)) by {
            if k < n {
                assert(q[k] == suites[k]);
                assert(prev.contains((k, p)));
                let t = choose|t: int| 0 <= t < prev.len() && prev[t] == (k, p);
                assert(sched[t] == (k, p));
            } else {
                assert(suites[k] == last);
                assert(order.contains(p));
                let t = choose|t: int| 0 <= t < order.len() && order[t] == p;
                assert(sched[prev.len() + t] == (k, p));
            }
        }
    }
}

/// A run of one suite follows that suite's run order.
pub proof fn lemma_schedule_one(suite: Suite, scale: Option<Scale>)
    ensures
        schedule(seq![suite], scale) == tagged(run_order(suite.section, suite.tests@, scale), 0),
{
    let one = seq![suite];
    let block = tagged(run_order(suite.section, suite.tests@, scale), 0);
    assert(one.drop_last() =~= Seq::<Suite>::empty());
    assert(one.last() == suite);
    assert(schedule(one.drop_last(), scale) == Seq::<(int, int)>::empty());
    assert(schedule(one, scale) == Seq::<(int, int)>::empty() + block);
    assert(Seq::<(int, int)>::empty() + block =~= block);
}

/// A run at the full scale hands the implementation under test, of a scaled
/// section, only full tests: no tiny test reaches it. Each test is either
/// handed over or counted among the skipped.
pub proof fn lemma_full_run_hands_only_full(suites: Seq<Suite>)
    ensures
        forall|i: int|
            0 <= i < schedule(suites, Some(Scale::Full)).len() && scaled(
                suites[schedule(suites, Some(Scale::Full))[i].0].section,
            ) ==> scheduled_test(suites, #[trigger] schedule(suites, Some(Scale::Full))[i]).scale
                == Some(Scale::Full),
        forall|k: int, p: int|
            0 <= k < suites.len() && 0 <= p < suites[k].tests@.len() && scaled(suites[k].section)
                && suites[k].tests@[p].scale == Some(Scale::Tiny) ==> !schedule(
                suites,
                Some(Scale::Full),
            ).contains((k, p)),
        schedule(suites, Some(Scale::Full)).len() + skipped_of(suites, Some(Scale::Full))
            == total_of(suites),
{
    let scale = Some(Scale::Full);
    let sched = schedule(suites, scale);
    lemma_schedule(suites, scale);
    assert forall|i: int|
        0 <= i < sched.len() && scaled(suites[sched[i].0].section) implies scheduled_test(
        suites,
        #[trigger] sched[i],
    ).scale == Some(Scale::Full) by {
        let at = sched[i];
        lemma_run_order(suites[at.0].section, suites[at.0].tests@, scale);
    }
    assert forall|k: int, p: int|
        0 <= k < suites.len() && 0 <= p < suites[k].tests@.len() && scaled(suites[k].section)
            && suites[k].tests@[p].scale == Some(Scale::Tiny) implies !sched.contains((k, p)) by {
        lemma_run_order(suites[k].section, suites[k].tests@, scale);
        if sched.contains((k, p)) {
            let t = choose|t: int| 0 <= t < sched.len() && sched[t] == (k, p);
            assert(run_order(suites[k].section, suites[k].tests@, scale).contains(p));
        }
    }
}

/// A run of one scaled section with no scale requested hands the
/// implementation under test every tiny test, each before every full test.
pub proof fn lemma_tiny_before_full_run(suite: Suite)
    requires
        scaled(suite.section),
    ensures
        forall|p: int|
            0 <= p < suite.tests@.len() && suite.tests@[p].scale == Some(Scale::Tiny) ==> schedule(
                seq![suite],
                None,
            ).contains((0, p)),
        forall|a: int, b: int|
            0 <= a < b < schedule(seq![suite], None).len() ==> !(scheduled_test(
                seq![suite],
                schedule(seq![suite], None)[a],
            ).scale == Some(Scale::Full) && scheduled_test(
                seq![suite],
                schedule(seq![suite], None)[b],
            ).scale == Some(Scale::Tiny)),
{
    let one = seq![suite];
    let order = run_order(suite.section, suite.tests@, None);
    lemma_schedule_one(suite, None);
    lemma_tiny_before_full(suite.section, suite.tests@);
    let sched = schedule(one, None);
    assert forall|p: int|
        0 <= p < suite.tests@.len() && suite.tests@[p].scale == Some(Scale::Tiny) implies sched.contains(
        (0, p),
    ) by {
        assert(order.contains(p));
        let t = choose|t: int| 0 <= t < order.len() && order[t] == p;
        assert(sched[t] == (0int, p));
    }
    assert forall|a: int, b: int| 0 <= a < b < sched.len() implies !(scheduled_test(
        one,
        sched[a],
    ).scale == Some(Scale::Full) && scheduled_test(one, sched[b]).scale == Some(Scale::Tiny)) by {
        assert(sched[a] == (0int, order[a]) && sched[b] == (0int, order[b]));
        assert(one[0] == suite);
    }
}

/// A run of one unscaled section hands the implementation under test each
/// test once, in list order, whatever scale was requested.
pub proof fn lemma_unscaled_run(suite: Suite, scale: Option<Scale>)
    requires
        !scaled(suite.section),
    ensures
        schedule(seq![suite], scale) == tagged(upto(suite.tests@.len() as int), 0),
{
    lemma_schedule_one(suite, scale);
}

/// An implementation under test.
pub trait Runner {
    /// Executes one test and judges the result.
    fn step(&self, test: &Test) -> Result<(), String>;
}

/// The number of tests that a pass keeps.
fn count_kept(tests: &Vec<Test>, want: Option<Scale>, negate: bool) -> (r: usize)
    ensures
        r == positions(tests@, want, negate).len(),
{
    let mut n: usize = 0;
    let mut i: usize = 0;
    while i < tests.len()
        invariant
            i <= tests@.len(),
            n == positions(tests@.subrange(0, i as int), want, negate).len(),
            n <= i,
        decreases tests@.len() - i,
    {
        assert(tests@.subrange(0, i + 1).drop_last() =~= tests@.subrange(0, i as int));
        if kept(&tests[i], want) != negate {
            n = n + 1;
        }
        i += 1;
    }
    assert(tests@.subrange(0, tests@.len() as int) =~= tests@);
    n
}

/// Whether the test's scale is `want`.
fn kept(t: &Test, want: Option<Scale>) -> (r: bool)
    ensures
        r == (t.scale == want),
{
    match t.scale {
        Some(s) => match want {
            Some(w) => s == w,
            None => false,
        },
        None => want.is_none(),
    }
}

/// Appends, for suite `k`, the positions that a pass keeps, in list order.
fn push_kept(
    out: &mut Vec<(usize, usize)>,
    k: usize,
    tests: &Vec<Test>,
    want: Option<Scale>,
    negate: bool,
)
    ensures
        pairs_view(final(out)@) == pairs_view(old(out)@) + tagged(
            positions(tests@, want, negate),
            k as int,
        ),
{
    let ghost start = pairs_view(out@);
    let mut i: usize = 0;
    while i < tests.len()
        invariant
            i <= tests@.len(),
            pairs_view(out@) == start + tagged(
                positions(tests@.subrange(0, i as int), want, negate),
                k as int,
            ),
        decreases tests@.len() - i,
    {
        let ghost before = out@;
        let ghost prev = positions(tests@.subrange(0, i as int), want, negate);
        assert(tests@.subrange(0, i + 1).drop_last() =~= tests@.subrange(0, i as int));
        if kept(&tests[i], want) != negate {
            out.push((k, i));
            assert(tagged(prev.push(i as int), k as int) =~= tagged(prev, k as int).push(
                (k as int, i as int),
            ));
            assert(pairs_view(out@) =~= pairs_view(before).push((k as int, i as int)));
        }
        i += 1;
    }
    assert(tests@.subrange(0, tests@.len() as int) =~= tests@);
}

/// Appends, for suite `k`, every position below `n`.
fn push_every(out: &mut Vec<(usize, usize)>, k: usize, n: usize)
    ensures
        pairs_view(final(out)@) == pairs_view(old(out)@) + tagged(upto(n as int), k as int),
{
    let ghost start = pairs_view(out@);
    let mut i: usize = 0;
    while i < n
        invariant
            i <= n,
            pairs_view(out@) == start + tagged(upto(i as int), k as int),
        decreases n - i,
    {
        let ghost before = out@;
        out.push((k, i));
        assert(tagged(upto(i + 1), k as int) =~= tagged(upto(i as int), k as int).push(
            (k as int, i as int),
        ));
        assert(pairs_view(out@) =~= pairs_view(before).push((k as int, i as int)));
        i += 1;
    }
}

/// The tests a run at `scale` hands to the implementation under test, in
/// order: exactly `schedule`.
pub fn plan(scale: Option<Scale>, suites: &Vec<Suite>) -> (r: Vec<(usize, usize)>)
    ensures
        pairs_view(r@) == schedule(suites@, scale),
{
    let mut out: Vec<(usize, usize)> = Vec::new();
    assert(pairs_view(out@) =~= schedule(suites@.subrange(0, 0), scale));
    let mut k: usize = 0;
    while k < suites.len()
        invariant
            k <= suites@.len(),
            pairs_view(out@) == schedule(suites@.subrange(0, k as int), scale),
        decreases suites@.len() - k,
    {
        let ghost sub = suites@.subrange(0, k + 1);
        assert(sub.drop_last() =~= suites@.subrange(0, k as int));
        let ghost before = pairs_view(out@);
        let tests = &suites[k].tests;
        let section = suites[k].section;
        if !section.is_scaled() {
            push_every(&mut out, k, tests.len());
        } else {
            match scale {
                None => {
                    push_kept(&mut out, k, tests, Some(Scale::Full), true);
                    push_kept(&mut out, k, tests, Some(Scale::Full), false);
                    assert(tagged(
                        positions(tests@, Some(Scale::Full), true) + positions(
                            tests@,
                            Some(Scale::Full),
                            false,
                        ),
                        k as int,
                    ) =~= tagged(positions(tests@, Some(Scale::Full), true), k as int) + tagged(
                        positions(tests@, Some(Scale::Full), false),
                        k as int,
                    ));
                },
                Some(s) => {
                    push_kept(&mut out, k, tests, Some(s), false);
                },
            }
        }
        assert(pairs_view(out@) =~= before + tagged(
            run_order(section, tests@, scale),
            k as int,
        ));
        k += 1;
    }
    assert(suites@.subrange(0, suites@.len() as int) =~= suites@);
    out
}

/// The counters of all suites: every test, and those left out.
fn tally(scale: Option<Scale>, suites: &Vec<Suite>) -> (r: (usize, usize))
    ensures
        r.0 == capped(total_of(suites@)),
        r.1 == capped(skipped_of(suites@, scale)),
{
    let mut total: usize = 0;
    let mut skipped: usize = 0;
    let mut k: usize = 0;
    while k < suites.len()
        invariant
            k <= suites@.len(),
            total == capped(total_of(suites@.subrange(0, k as int))),
            skipped == capped(skipped_of(suites@.subrange(0, k as int), scale)),
            total_of(suites@.subrange(0, k as int)) >= 0,
            skipped_of(suites@.subrange(0, k as int), scale) >= 0,
        decreases suites@.len() - k,
    {
        let ghost sub = suites@.subrange(0, k + 1);
        assert(sub.drop_last() =~= suites@.subrange(0, k as int));
        let tests = &suites[k].tests;
        let section = suites[k].section;
        proof {
            lemma_run_order(section, tests@, scale);
            if let Some(s) = scale {
                lemma_positions(tests@, Some(s), false);
            }
        }
        let here: usize = if section.is_scaled() {
            match scale {
                Some(s) => tests.len() - count_kept(tests, Some(s), false),
                None => 0,
            }
        } else {
            0
        };
        skipped = skipped.saturating_add(here);
        total = total.saturating_add(tests.len());
        k += 1;
    }
    assert(suites@.subrange(0, suites@.len() as int) =~= suites@);
    (total, skipped)
}

/// Hands the scheduled tests to `runner` one by one, in the order of
/// `plan`, and stops at the first failure, which it returns; then counts.
pub fn process<R: Runner>(runner: &R, scale: Option<Scale>, suites: &Vec<Suite>) -> (r: Result<
    Summary,
    RunError,
>)
    ensures
        run_outcome(suites@, scale, r),
{
    let order = plan(scale, suites);
    proof {
        lemma_schedule(suites@, scale);
    }
    let ghost sched = schedule(suites@, scale);
    let mut i: usize = 0;
    while i < order.len()
        invariant
            pairs_view(order@) == sched,
            sched == schedule(suites@, scale),
            i <= order@.len(),
            forall|j: int|
                0 <= j < sched.len() ==> {
                    let at = #[trigger] sched[j];
                    &&& 0 <= at.0 < suites@.len()
                    &&& 0 <= at.1 < suites@[at.0].tests@.len()
                },
        decreases order@.len() - i,
    {
        let (k, p) = order[i];
        assert(sched[i as int] == (k as int, p as int));
        let suite = &suites[k];
        let t = &suite.tests[p];
        match runner.step(t) {
            Ok(()) => {},
            Err(message) => {
                return Err(
                    RunError { section: suite.section, name: t.name.clone(), message, position: i },
                );
            },
        }
        i += 1;
    }
    let counts = tally(scale, suites);
    Ok(Summary { total: counts.0, run: order.len(), skipped: counts.1 })
}

/// A member of the first part is a member of the concatenation.
proof fn lemma_in_concat(a: Seq<int>, b: Seq<int>, x: int)
    requires
        a.contains(x),
    ensures
        (a + b).contains(x),
{
    let j = choose|j: int| 0 <= j < a.len() && a[j] == x;
    assert((a + b)[j] == x);
}

/// A member of the second part is a member of the concatenation.
proof fn lemma_in_concat2(a: Seq<int>, b: Seq<int>, x: int)
    requires
        b.contains(x),
    ensures
        (a + b).contains(x),
{
    let j = choose|j: int| 0 <= j < b.len() && b[j] == x;
    assert((a + b)[a.len() + j] == x);
}


/// A runner that passes every test.
pub struct DummyRunner;

impl Runner for DummyRunner {
    fn step(&self, test: &Test) -> (r: Result<(), String>) {
        Ok(())
    }
}

/// Whether two JSON texts hold the same document: both parse, and serde_json
/// writes them alike (members in key order, no white space).
pub open spec fn same_json(a: Seq<char>, b: Seq<char>) -> bool {
    match (json_parse(a), json_parse(b)) {
        (Some(x), Some(y)) => json_render(x) == json_render(y),
        _ => false,
    }
}

/// An implementation under test that is a program: it is started with the
/// test's name and section, and writes its output to standard output.
#[derive(Debug)]
pub struct BinaryRunner {
    path: String,
}

impl BinaryRunner {
    /// The path of the program.
    pub closed spec fn path_spec(&self) -> Seq<char> {
        self.path@
    }

    /// A runner for the program at `path`.
    pub fn new(path: String) -> (r: Self)
        ensures
            r.path_spec() == path@,
    {
        BinaryRunner { path }
    }

    /// The path of the program.
    pub fn path(&self) -> (r: &str)
        ensures
            r@ == self.path_spec(),
    {
        self.path.as_str()
    }

    /// The arguments the program is started with: the test's name, then its
    /// section.
    pub fn args(&self, test: &Test) -> (r: Vec<String>)
        ensures
            r@.len() == 2,
            r@[0]@ == test.name@,
            r@[1]@ == section_name(test.section),
    {
        let mut r: Vec<String> = Vec::new();
        r.push(test.name.clone());
        r.push(test.section.render().to_owned());
        r
    }

    /// Judges what the program wrote: it must be the expected output as a
    /// JSON document, whatever the order of members and the white space.
    pub fn judge(&self, test: &Test, stdout: &str) -> (r: Result<(), String>)
        ensures
            r is Ok <==> same_json(stdout@, test.output@),
    {
        let produced = match parse_json(stdout) {
            Some(j) => j,
            None => {
                return Err("the output is not JSON".to_owned());
            },
        };
        let expected = match parse_json(test.output.as_str()) {
            Some(j) => j,
            None => {
                return Err("the expected output is not JSON".to_owned());
            },
        };
        let a = render_json(&produced);
        let b = render_json(&expected);
        if text_eq(a.as_str(), b.as_str()) {
            Ok(())
        } else {
            Err("the output differs from the expected output".to_owned())
        }
    }
}

/// Whether `v` holds `s`.
fn holds(v: &Vec<Section>, s: Section) -> (r: bool)
    ensures
        r == v@.contains(s),
{
    let mut j: usize = 0;
    while j < v.len()
        invariant
            j <= v@.len(),
            forall|t: int| 0 <= t < j ==> v@[t] != s,
        decreases v@.len() - j,
    {
        if v[j] == s {
            assert(v@[j as int] == s);
            return true;
        }
        j += 1;
    }
    false
}

/// The suites whose section `sections` holds, in order.
pub open spec fn chosen(suites: Seq<Suite>, sections: Seq<Section>) -> Seq<Suite>
    decreases suites.len(),
{
    if suites.len() == 0 {
        Seq::empty()
    } else if sections.contains(suites.last().section) {
        chosen(suites.drop_last(), sections).push(suites.last())
    } else {
        chosen(suites.drop_last(), sections)
    }
}

/// The sections of `all` that `skip` does not hold, in order.
pub open spec fn without(all: Seq<Section>, skip: Seq<Section>) -> Seq<Section>
    decreases all.len(),
{
    if all.len() == 0 {
        Seq::empty()
    } else if skip.contains(all.last()) {
        without(all.drop_last(), skip)
    } else {
        without(all.drop_last(), skip).push(all.last())
    }
}

/// What a run is asked to do.
pub struct SpawnOptions {
    /// The scale to run; none runs tiny fixtures, then full ones
    pub scale: Option<Scale>,
    /// The one section to run; none runs every section
    pub section: Option<Section>,
    /// The sections to leave out of a run of every section
    pub skip: Vec<Section>,
}

impl SpawnOptions {
    /// The sections the options select, in run order.
    pub open spec fn selected(&self) -> Seq<Section> {
        match self.section {
            Some(s) => seq![s],
            None => without(all_sections(), self.skip@),
        }
    }

    /// The sections the options select, in run order.
    pub fn sections(&self) -> (r: Vec<Section>)
        ensures
            r@ == self.selected(),
    {
        let mut r: Vec<Section> = Vec::new();
        match self.section {
            Some(s) => {
                r.push(s);
                assert(r@ =~= seq![s]);
            },
            None => {
                let all = Section::all();
                let mut i: usize = 0;
                while i < 16
                    invariant
                        all@ == all_sections(),
                        i <= 16,
                        r@ == without(all_sections().subrange(0, i as int), self.skip@),
                    decreases 16 - i,
                {
                    assert(all_sections().subrange(0, i + 1).drop_last() =~= all_sections().subrange(
                        0,
                        i as int,
                    ));
                    let s = all[i];
                    let found = holds(&self.skip, s);
                    if !found {
                        r.push(s);
                    }
                    i += 1;
                }
                assert(all_sections().subrange(0, 16) =~= all_sections());
            },
        }
        r
    }

    /// Runs those of `suites` whose section the options select, in the order
    /// given, as `process` does at the requested scale.
    pub fn run<R: Runner>(&self, runner: &R, suites: Vec<Suite>) -> (r: Result<Summary, RunError>)
        ensures
            run_outcome(chosen(suites@, self.selected()), self.scale, r),
    {
        let sections = self.sections();
        let ghost all = suites@;
        let n = suites.len();
        let mut rest = suites;
        let mut kept: Vec<Suite> = Vec::new();
        let mut i: usize = 0;
        while i < n
            invariant
                n == all.len(),
                i <= n,
                rest@ == all.subrange(i as int, n as int),
                kept@ == chosen(all.subrange(0, i as int), sections@),
            decreases n - i,
        {
            assert(all.subrange(0, i + 1).drop_last() =~= all.subrange(0, i as int));
            let suite = rest.remove(0);
            if holds(&sections, suite.section) {
                kept.push(suite);
            }
            i += 1;
        }
        assert(all.subrange(0, n as int) =~= all);
        process(runner, self.scale, &kept)
    }
}

} // verus!
