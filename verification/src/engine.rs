//! The search coordination step. Each attempt's outcome — a generation
//! failure or a generated fingerprint — is folded into the shared run state:
//! the budget is checked, the fingerprint is tested against the catalog,
//! a genuine new match is recorded and assigned its artifact index, and the
//! counters advance. The surrounding application fans attempts out across
//! workers and performs the generation and persistence themselves.

use crate::catalog::{spec_test, PatternCatalog};
use crate::registry::{spec_insert, MatchRegistry};
use vstd::prelude::*;

verus! {

/// One attempt's outcome, as handed back by the external generator: a
/// failed generation, or a generated identity's fingerprint.
pub enum AttemptOutcome {
    Failed,
    Generated(String),
}

/// What must be persisted for a confirmed new match.
pub struct MatchRecord {
    /// The artifact index: the number of matches found before this one.
    pub index: u64,
    /// The matched fingerprint.
    pub fingerprint: String,
    /// The catalog pattern found in the fingerprint's window.
    pub pattern: String,
}

/// The abstract state of a run: the attempt budget, the two counters, and
/// the fingerprints already confirmed matched, in match order.
pub struct RunModel {
    pub total: int,
    pub attempts: int,
    pub matches: int,
    pub seen: Seq<Seq<char>>,
}

/// The abstract content of one persisted match.
pub struct RecordModel {
    pub index: int,
    pub fingerprint: Seq<char>,
    pub pattern: Seq<char>,
}

/// A fresh run state: nothing attempted, nothing matched.
pub open spec fn initial_model(total: int) -> RunModel {
    RunModel { total, attempts: 0, matches: 0, seen: Seq::empty() }
}

/// The state invariant: matches found stay at or below attempts completed,
/// attempts completed at or below the budget, and the match counter equals
/// the number of distinct recorded fingerprints.
pub open spec fn model_wf(m: RunModel) -> bool {
    &&& 0 <= m.matches <= m.attempts <= m.total
    &&& m.matches == m.seen.len()
    &&& m.seen.no_duplicates()
}

/// The fingerprint carried by an outcome, if generation succeeded.
pub open spec fn outcome_view(o: AttemptOutcome) -> Option<Seq<char>> {
    match o {
        AttemptOutcome::Failed => None,
        AttemptOutcome::Generated(f) => Some(f@),
    }
}

/// The abstract content of a step's result.
pub open spec fn record_view(r: Option<MatchRecord>) -> Option<RecordModel> {
    match r {
        None => None,
        Some(rec) => Some(
            RecordModel {
                index: rec.index as int,
                fingerprint: rec.fingerprint@,
                pattern: rec.pattern@,
            },
        ),
    }
}

/// One attempt, abstractly. A failed generation changes nothing and is not
/// counted. With the budget already reached the outcome is dropped. An
/// otherwise counted attempt bumps the attempt counter; a fingerprint whose
/// window hits the catalog and was not seen before is recorded, bumps the
/// match counter, and is persisted under the pre-bump match count as index.
pub open spec fn spec_step(m: RunModel, cat: Set<Seq<char>>, ev: Option<Seq<char>>) -> (
    RunModel,
    Option<RecordModel>,
) {
    match ev {
        None => (m, None),
        Some(f) => {
            if m.attempts >= m.total {
                (m, None)
            } else {
                let counted = RunModel { attempts: m.attempts + 1, ..m };
                match spec_test(cat, f) {
                    None => (counted, None),
                    Some(p) => {
                        if m.seen.contains(f) {
                            (counted, None)
                        } else {
                            (
                                RunModel {
                                    attempts: m.attempts + 1,
                                    matches: m.matches + 1,
                                    seen: m.seen.push(f),
                                    ..m
                                },
                                Some(RecordModel { index: m.matches, fingerprint: f, pattern: p }),
                            )
                        }
                    },
                }
            }
        },
    }
}

/// The shared run state: the attempt budget, the progress counters, and the
/// registry of matched fingerprints.
pub struct SearchState {
    total: u64,
    attempts_completed: u64,
    matches_found: u64,
    registry: MatchRegistry,
}

impl SearchState {
    /// The abstract state.
    pub closed spec fn model(&self) -> RunModel {
        RunModel {
            total: self.total as int,
            attempts: self.attempts_completed as int,
            matches: self.matches_found as int,
            seen: self.registry@,
        }
    }

    /// The state invariant; every constructor establishes it and every
    /// method preserves it.
    pub open spec fn wf(&self) -> bool {
        model_wf(self.model())
    }

    /// A fresh state with the given attempt budget.
    pub fn new(total: u64) -> (r: SearchState)
        ensures
            r.wf(),
            r.model() == initial_model(total as int),
    {
        let r = SearchState {
            total,
            attempts_completed: 0,
            matches_found: 0,
            registry: MatchRegistry::new(),
        };
        r
    }

    /// The configured attempt budget.
    pub fn total(&self) -> (r: u64)
        ensures
            r == self.model().total,
    {
        self.total
    }

    /// How many attempts have completed.
    pub fn attempts_completed(&self) -> (r: u64)
        ensures
            r == self.model().attempts,
    {
        self.attempts_completed
    }

    /// How many matches have been found.
    pub fn matches_found(&self) -> (r: u64)
        ensures
            r == self.model().matches,
    {
        self.matches_found
    }

    /// The soft budget check a worker reads before requesting a generation.
    /// It is advisory: the attempt bound itself is enforced by `step`.
    pub fn should_attempt(&self) -> (r: bool)
        ensures
            r == (self.model().attempts < self.model().total),
    {
        self.attempts_completed < self.total
    }

    /// Folds one attempt outcome into the state, exactly as `spec_step`
    /// says, and returns what must be persisted if this attempt confirmed a
    /// new match.
    pub fn step(&mut self, catalog: &PatternCatalog, outcome: AttemptOutcome) -> (r: Option<
        MatchRecord,
    >)
        requires
            old(self).wf(),
        ensures
            final(self).wf(),
            (final(self).model(), record_view(r)) == spec_step(
                old(self).model(),
                catalog@,
                outcome_view(outcome),
            ),
    {
        match outcome {
            AttemptOutcome::Failed => None,
            AttemptOutcome::Generated(fingerprint) => {
                if self.attempts_completed >= self.total {
                    return None;
                }
                let tested = catalog.test(fingerprint.as_str());
                let result: Option<MatchRecord> = match tested {
                    None => None,
                    Some(pattern) => {
                        if self.registry.insert(fingerprint.clone()) {
                            let record = MatchRecord {
                                index: self.matches_found,
                                fingerprint,
                                pattern,
                            };
                            self.matches_found = self.matches_found + 1;
                            Some(record)
                        } else {
                            None
                        }
                    },
                };
                self.attempts_completed = self.attempts_completed + 1;
                result
            },
        }
    }
}

/// The run state after a sequence of attempt outcomes.
pub open spec fn run_model(m: RunModel, cat: Set<Seq<char>>, evs: Seq<Option<Seq<char>>>) -> RunModel
    decreases evs.len(),
{
    if evs.len() == 0 {
        m
    } else {
        run_model(spec_step(m, cat, evs[0]).0, cat, evs.drop_first())
    }
}

/// The records persisted across a sequence of attempt outcomes, in order.
pub open spec fn run_records(m: RunModel, cat: Set<Seq<char>>, evs: Seq<Option<Seq<char>>>) -> Seq<
    RecordModel,
>
    decreases evs.len(),
{
    if evs.len() == 0 {
        Seq::empty()
    } else {
        let next = spec_step(m, cat, evs[0]);
        (match next.1 {
            None => Seq::<RecordModel>::empty(),
            Some(rec) => seq![rec],
        }) + run_records(next.0, cat, evs.drop_first())
    }
}

/// One step preserves the state invariant and never changes the budget.
pub proof fn lemma_step_wf(m: RunModel, cat: Set<Seq<char>>, ev: Option<Seq<char>>)
    requires
        model_wf(m),
    ensures
        model_wf(spec_step(m, cat, ev).0),
        spec_step(m, cat, ev).0.total == m.total,
        spec_step(m, cat, ev).0.matches >= m.matches,
{
    let next = spec_step(m, cat, ev).0;
    if ev is Some && m.attempts < m.total && spec_test(cat, ev->Some_0) is Some
        && !m.seen.contains(ev->Some_0) {
        let f = ev->Some_0;
        assert forall|a: int, b: int| 0 <= a < b < next.seen.len() implies next.seen[a]
            != next.seen[b] by {
            if b < m.seen.len() {
                assert(m.seen[a] != m.seen[b]);
            } else {
                assert(!m.seen.contains(next.seen[b]));
                assert(m.seen[a] == next.seen[a]);
            }
        }
    }
}

/// Attempts completed never pass the configured budget, and matches found
/// never pass attempts completed: the invariant holds at every observation
/// point of a run from a well-formed state, that is, after every prefix of
/// its attempt outcomes.
pub proof fn lemma_run_wf(m: RunModel, cat: Set<Seq<char>>, evs: Seq<Option<Seq<char>>>)
    requires
        model_wf(m),
    ensures
        model_wf(run_model(m, cat, evs)),
        run_model(m, cat, evs).total == m.total,
        forall|k: int| 0 <= k <= evs.len() ==> model_wf(run_model(m, cat, #[trigger] evs.take(k))),
    decreases evs.len(),
{
    if evs.len() > 0 {
        lemma_step_wf(m, cat, evs[0]);
        let next = spec_step(m, cat, evs[0]).0;
        lemma_run_wf(next, cat, evs.drop_first());
        assert forall|k: int| 0 <= k <= evs.len() implies model_wf(
            run_model(m, cat, #[trigger] evs.take(k)),
        ) by {
            if k == 0 {
                assert(evs.take(0) =~= Seq::<Option<Seq<char>>>::empty());
            } else {
                assert(evs.take(k)[0] == evs[0]);
                assert(evs.take(k).drop_first() =~= evs.drop_first().take(k - 1));
                assert(model_wf(run_model(next, cat, evs.drop_first().take(k - 1))));
            }
        }
    } else {
        assert forall|k: int| 0 <= k <= evs.len() implies model_wf(
            run_model(m, cat, #[trigger] evs.take(k)),
        ) by {
            assert(evs.take(k) =~= evs);
        }
    }
}

/// Across a run, the k-th persisted record carries index `matches + k`, its
/// fingerprint was not seen when the run began, and no two records share a
/// fingerprint.
pub proof fn lemma_run_records(m: RunModel, cat: Set<Seq<char>>, evs: Seq<Option<Seq<char>>>)
    requires
        model_wf(m),
    ensures
        ({
            let recs = run_records(m, cat, evs);
            &&& forall|k: int| 0 <= k < recs.len() ==> (#[trigger] recs[k]).index == m.matches + k
            &&& forall|k: int|
                0 <= k < recs.len() ==> !m.seen.contains((#[trigger] recs[k]).fingerprint)
            &&& forall|k1: int, k2: int|
                0 <= k1 < k2 < recs.len() ==> (#[trigger] recs[k1]).fingerprint != (
                #[trigger] recs[k2]).fingerprint
        }),
    decreases evs.len(),
{
    let recs = run_records(m, cat, evs);
    if evs.len() > 0 {
        let next = spec_step(m, cat, evs[0]);
        lemma_step_wf(m, cat, evs[0]);
        lemma_run_records(next.0, cat, evs.drop_first());
        let rest = run_records(next.0, cat, evs.drop_first());
        match next.1 {
            None => {
                assert(recs =~= rest);
                assert(next.0.matches == m.matches);
                assert(next.0.seen == m.seen);
            },
            Some(rec) => {
                let f = evs[0]->Some_0;
                assert(recs =~= seq![rec] + rest);
                assert(rec.index == m.matches);
                assert(next.0.matches == m.matches + 1);
                assert(next.0.seen == m.seen.push(f));
                assert forall|k: int|
                    0 <= k < recs.len() implies (#[trigger] recs[k]).index == m.matches + k by {
                    if k > 0 {
                        assert(recs[k] == rest[k - 1]);
                    }
                }
                assert forall|k: int|
                    0 <= k < recs.len() implies !m.seen.contains(
                    (#[trigger] recs[k]).fingerprint,
                ) by {
                    if k > 0 {
                        assert(recs[k] == rest[k - 1]);
                        assert(!next.0.seen.contains(rest[k - 1].fingerprint));
                        if m.seen.contains(rest[k - 1].fingerprint) {
                            let w = choose|w: int|
                                0 <= w < m.seen.len() && m.seen[w] == rest[k - 1].fingerprint;
                            assert(next.0.seen[w] == rest[k - 1].fingerprint);
                        }
                    }
                }
                assert forall|k1: int, k2: int|
                    0 <= k1 < k2 < recs.len() implies (#[trigger] recs[k1]).fingerprint != (
                #[trigger] recs[k2]).fingerprint by {
                    if k1 > 0 {
                        assert(recs[k1] == rest[k1 - 1]);
                        assert(recs[k2] == rest[k2 - 1]);
                    } else {
                        assert(recs[k1] == rec);
                        assert(recs[k2] == rest[k2 - 1]);
                        assert(!next.0.seen.contains(rest[k2 - 1].fingerprint));
                        assert(next.0.seen[m.seen.len() as int] == f);
                        assert(next.0.seen.contains(f));
                    }
                }
            },
        }
    }
}

/// From a fresh state the persisted artifact indices are exactly 0, 1, 2,
/// ...: strictly increasing, no gaps, one per distinct matched fingerprint.
pub proof fn lemma_indices_from_zero(
    total: int,
    cat: Set<Seq<char>>,
    evs: Seq<Option<Seq<char>>>,
)
    requires
        total >= 0,
    ensures
        ({
            let recs = run_records(initial_model(total), cat, evs);
            &&& forall|k: int| 0 <= k < recs.len() ==> (#[trigger] recs[k]).index == k
            &&& forall|k1: int, k2: int|
                0 <= k1 < k2 < recs.len() ==> (#[trigger] recs[k1]).fingerprint != (
                #[trigger] recs[k2]).fingerprint
        }),
{
    lemma_run_records(initial_model(total), cat, evs);
}

} // verus!
