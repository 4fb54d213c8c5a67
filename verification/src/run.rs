//! A run in progress: which units have been started, and the outcome of each.
//!
//! Units finish in any order. Each gives one outcome, and one that fails gives an outcome
//! with an error and leaves the others as they are.

use vstd::multiset::Multiset;
use vstd::prelude::*;
use vstd::set_lib::{lemma_int_range, lemma_len_subset, lemma_subset_equality, set_int_range};

use crate::calendar::Timestamp;
use crate::job::{limit_for, run_manifest, unit_values, units, work_units, Pool, PoolView};
use crate::manifest::{uuid_hyphenated, EntityOutcome, RunManifest};
use crate::mode::SyncMode;
use crate::text::texts;
use crate::types::EntityType;

verus! {

/// What a unit that was fetched and uploaded has to tell.
#[derive(Debug)]
pub struct UnitDone {
    pub pages: u32,
    pub records: i64,
    /// How pagination ended.
    pub termination: String,
}

/// Whether an outcome is that of a unit with the given result.
pub open spec fn is_unit_outcome(
    o: EntityOutcome,
    unit: (Seq<char>, EntityType),
    result: Result<UnitDone, String>,
) -> bool {
    &&& is_for_unit(o, unit)
    &&& match result {
        Ok(done) => {
            &&& o.pages == done.pages
            &&& o.records == done.records
            &&& o.termination == done.termination
            &&& o.error is None
        },
        Err(e) => {
            &&& o.pages == 0
            &&& o.records == 0
            &&& o.termination@ == "error"@
            &&& o.error == Some(e)
        },
    }
}

/// Whether an outcome names a unit's tenant and endpoint.
pub open spec fn is_for_unit(o: EntityOutcome, unit: (Seq<char>, EntityType)) -> bool {
    o.tenant@ == unit.0 && o.endpoint@ == unit.1.name()
}

/// The outcome of a unit with the given result.
pub fn unit_outcome(tenant: &str, entity: &EntityType, result: Result<UnitDone, String>) -> (r:
    EntityOutcome)
    ensures
        is_unit_outcome(r, (tenant@, *entity), result),
{
    match result {
        Ok(done) => EntityOutcome {
            tenant: tenant.to_owned(),
            endpoint: entity.as_str().to_owned(),
            pages: done.pages,
            records: done.records,
            termination: done.termination,
            error: None,
        },
        Err(e) => EntityOutcome {
            tenant: tenant.to_owned(),
            endpoint: entity.as_str().to_owned(),
            pages: 0,
            records: 0,
            termination: "error".to_owned(),
            error: Some(e),
        },
    }
}

/// A run in progress.
#[derive(Debug)]
pub struct JobRun {
    run_id: u128,
    started_at: Timestamp,
    units: Vec<(String, EntityType)>,
    pool: Pool,
    running: Vec<bool>,
    order: Vec<usize>,
    outcomes: Vec<EntityOutcome>,
}

impl JobRun {
    pub closed spec fn id(self) -> u128 {
        self.run_id
    }

    pub closed spec fn since(self) -> Timestamp {
        self.started_at
    }

    /// The units, in the order in which they are started.
    pub closed spec fn all(self) -> Seq<(Seq<char>, EntityType)> {
        unit_values(self.units@)
    }

    /// How many units have been started, and how many of those run.
    pub closed spec fn progress(self) -> PoolView {
        self.pool@
    }

    /// The numbers of the units that have finished, in the order in which they did.
    pub closed spec fn finished(self) -> Seq<int> {
        Seq::new(self.order@.len(), |k: int| self.order@[k] as int)
    }

    /// The outcomes of the units that have finished, in the same order.
    pub closed spec fn results(self) -> Seq<EntityOutcome> {
        self.outcomes@
    }

    /// Whether a unit has been started and has not finished.
    pub open spec fn runs(self, i: int) -> bool {
        0 <= i < self.progress().started && !self.finished().contains(i)
    }

    /// Whether it is taken down of each unit whether it runs.
    pub closed spec fn tracks_running(self) -> bool {
        &&& self.running@.len() == self.units@.len()
        &&& forall|i: int|
            0 <= i < self.running@.len() ==> #[trigger] self.running@[i] == self.runs(i)
    }

    /// What holds of every run: each unit that has finished was started, finished once,
    /// and gave one outcome, its own; no more units run than are allowed.
    pub open spec fn consistent(self) -> bool {
        &&& self.progress().wf()
        &&& self.progress().total == self.all().len()
        &&& self.progress().running == self.progress().started - self.finished().len()
        &&& self.finished().no_duplicates()
        &&& self.results().len() == self.finished().len()
        &&& forall|k: int|
            0 <= k < self.finished().len() ==> 0 <= #[trigger] self.finished()[k]
                < self.progress().started
        &&& forall|k: int|
            0 <= k < self.results().len() ==> is_for_unit(
                #[trigger] self.results()[k],
                self.all()[self.finished()[k]],
            )
        &&& self.tracks_running()
    }

    /// Whether the two are the same run of the same units.
    pub open spec fn same_run(self, other: JobRun) -> bool {
        &&& self.id() == other.id()
        &&& self.since() == other.since()
        &&& self.all() == other.all()
        &&& self.progress().total == other.progress().total
        &&& self.progress().limit == other.progress().limit
    }

    /// A run of every entity for every tenant, none of them started.
    pub fn new(
        run_id: u128,
        started_at: Timestamp,
        tenants: &Vec<String>,
        entities: &Vec<EntityType>,
        max_concurrent: usize,
    ) -> (r: JobRun)
        ensures
            r.consistent(),
            r.id() == run_id,
            r.since() == started_at,
            r.all() == units(texts(tenants@), entities@),
            r.progress().limit == limit_for(max_concurrent as int),
            r.progress().started == 0,
            r.finished().len() == 0,
    {
        let units = work_units(tenants, entities);
        let pool = Pool::new(units.len(), max_concurrent);
        let mut running: Vec<bool> = Vec::new();
        let mut i: usize = 0;
        while i < units.len()
            invariant
                i <= units.len(),
                running@.len() == i,
                forall|k: int| 0 <= k < i ==> !#[trigger] running@[k],
            decreases units.len() - i,
        {
            running.push(false);
            i += 1;
        }
        JobRun {
            run_id,
            started_at,
            units,
            pool,
            running,
            order: Vec::new(),
            outcomes: Vec::new(),
        }
    }

    /// The tenant and the entity of a unit.
    pub fn unit(&self, at: usize) -> (r: (&str, &EntityType))
        requires
            at < self.all().len(),
        ensures
            (r.0@, *r.1) == self.all()[at as int],
    {
        let unit = &self.units[at];
        (unit.0.as_str(), &unit.1)
    }

    /// Start the next unit, where there is one and the limit allows it.
    pub fn start(&mut self) -> (r: Option<usize>)
        requires
            old(self).consistent(),
        ensures
            final(self).consistent(),
            final(self).same_run(*old(self)),
            final(self).finished() == old(self).finished(),
            final(self).results() == old(self).results(),
            if old(self).progress().can_start() {
                &&& r matches Some(n) && n == old(self).progress().started
                &&& final(self).progress().started == old(self).progress().started + 1
                &&& final(self).progress().running == old(self).progress().running + 1
            } else {
                r is None && final(self).progress() == old(self).progress()
            },
    {
        let r = self.pool.start();
        if let Some(at) = r {
            self.running.set(at, true);
            proof {
                let was = *old(self);
                assert(self.finished() == was.finished());
                assert(!was.finished().contains(at as int)) by {
                    if was.finished().contains(at as int) {
                        let k = choose|k: int|
                            0 <= k < was.finished().len() && was.finished()[k] == at;
                        assert(was.finished()[k] < was.progress().started);
                    }
                }
                assert forall|i: int| 0 <= i < self.running@.len() implies #[trigger]
                    self.running@[i] == self.runs(i) by {
                    if i != at {
                        assert(self.running@[i] == was.running@[i]);
                    }
                }
            }
        }
        r
    }

    /// Whether a unit has been started and has not finished.
    pub fn is_running(&self, at: usize) -> (r: bool)
        requires
            self.consistent(),
        ensures
            r == self.runs(at as int),
    {
        at < self.running.len() && self.running[at]
    }

    /// Take down how a unit that runs has ended.
    pub fn finish(&mut self, at: usize, result: Result<UnitDone, String>)
        requires
            old(self).consistent(),
            old(self).runs(at as int),
        ensures
            final(self).consistent(),
            final(self).same_run(*old(self)),
            final(self).progress().started == old(self).progress().started,
            final(self).progress().running == old(self).progress().running - 1,
            final(self).finished() == old(self).finished().push(at as int),
            final(self).results().len() == old(self).results().len() + 1,
            final(self).results().drop_last() == old(self).results(),
            is_unit_outcome(final(self).results().last(), old(self).all()[at as int], result),
    {
        let ghost was = *self;
        let ghost order = was.finished().push(at as int);
        proof {
            assert(order.no_duplicates());
            fits_in_range(order, was.progress().started as int);
        }
        let outcome = unit_outcome(self.units[at].0.as_str(), &self.units[at].1, result);
        self.pool.finish();
        self.running.set(at, false);
        self.order.push(at);
        self.outcomes.push(outcome);
        proof {
            assert(self.finished() =~= order);
            assert(self.results().drop_last() =~= was.results());
            assert forall|i: int| 0 <= i < self.running@.len() implies #[trigger] self.running@[i]
                == self.runs(i) by {
                if i == at {
                    assert(order[order.len() - 1] == i);
                } else {
                    assert(self.running@[i] == was.running@[i]);
                    if was.finished().contains(i) {
                        let k = choose|k: int|
                            0 <= k < was.finished().len() && was.finished()[k] == i;
                        assert(order[k] == i);
                    }
                }
            }
            assert forall|k: int| 0 <= k < self.results().len() implies is_for_unit(
                #[trigger] self.results()[k],
                self.all()[self.finished()[k]],
            ) by {
                if k < was.results().len() {
                    assert(self.results()[k] == was.results()[k]);
                    assert(self.finished()[k] == was.finished()[k]);
                }
            }
        }
    }

    /// The manifest of the run in a mode: the outcomes of the units that have finished.
    pub fn into_manifest(self, mode: &SyncMode, finished_at: Timestamp) -> (r: RunManifest)
        ensures
            r.run_id@ == uuid_hyphenated(self.id()),
            r.started_at@ == self.since().rfc3339_text(),
            r.finished_at@ == finished_at.rfc3339_text(),
            r.mode@ == mode.kind().name(),
            match r.window_days {
                Some(n) => mode.days() == Some(n as int),
                None => mode.days() is None,
            },
            r.entities@ == self.results(),
    {
        run_manifest(self.run_id, self.started_at, finished_at, mode, self.outcomes)
    }
}

/// Different numbers below a bound are no more than the bound.
proof fn fits_in_range(p: Seq<int>, n: int)
    requires
        0 <= n,
        p.no_duplicates(),
        forall|k: int| 0 <= k < p.len() ==> 0 <= #[trigger] p[k] < n,
    ensures
        p.len() <= n,
        p.len() == n ==> forall|i: int| 0 <= i < n ==> #[trigger] p.contains(i),
{
    p.unique_seq_to_set();
    lemma_int_range(0, n);
    assert forall|i: int| p.to_set().contains(i) implies set_int_range(0, n).contains(i) by {
        let k = choose|k: int| 0 <= k < p.len() && p[k] == i;
        assert(0 <= p[k] < n);
    }
    lemma_len_subset(p.to_set(), set_int_range(0, n));
    if p.len() == n {
        lemma_subset_equality(p.to_set(), set_int_range(0, n));
        assert forall|i: int| 0 <= i < n implies #[trigger] p.contains(i) by {
            assert(set_int_range(0, n).contains(i));
            assert(p.to_set().contains(i));
        }
    }
}

/// The values at the given places, in order.
pub open spec fn picked<A>(s: Seq<A>, places: Seq<int>) -> Seq<A> {
    Seq::new(places.len(), |k: int| s[places[k]])
}

/// Values picked from every place once are the same values.
proof fn permutation_keeps_values<A>(s: Seq<A>, places: Seq<int>)
    requires
        places.len() == s.len(),
        places.no_duplicates(),
        forall|k: int| 0 <= k < places.len() ==> 0 <= #[trigger] places[k] < s.len(),
    ensures
        picked(s, places).to_multiset() == s.to_multiset(),
    decreases s.len(),
{
    broadcast use vstd::multiset::group_multiset_axioms;

    let t = picked(s, places);
    if s.len() == 0 {
        assert(t =~= s);
    } else {
        let n = s.len() - 1;
        fits_in_range(places, s.len() as int);
        assert(places.contains(n));
        let k = choose|k: int| 0 <= k < places.len() && places[k] == n;
        let rest = places.remove(k);
        assert forall|i: int| 0 <= i < rest.len() implies 0 <= #[trigger] rest[i] < n by {
            if i < k {
                assert(rest[i] == places[i]);
            } else {
                assert(rest[i] == places[i + 1]);
            }
        }
        assert(rest.no_duplicates());
        permutation_keeps_values(s.drop_last(), rest);
        assert(picked(s.drop_last(), rest) =~= t.remove(k));
        vstd::seq_lib::to_multiset_remove(t, k);
        vstd::seq_lib::to_multiset_contains(t, s[n]);
        assert(t[k] == s[n]);
        vstd::seq_lib::to_multiset_build(s.drop_last(), s[n]);
        assert(s =~= s.drop_last().push(s[n]));
        assert(t.to_multiset() =~= t.remove(k).to_multiset().insert(s[n]));
    }
}

/// The tenants and endpoints of units.
pub open spec fn unit_pairs(v: Seq<(Seq<char>, EntityType)>) -> Seq<(Seq<char>, Seq<char>)> {
    Seq::new(v.len(), |i: int| (v[i].0, v[i].1.name()))
}

/// The tenants and endpoints of outcomes.
pub open spec fn outcome_pairs(v: Seq<EntityOutcome>) -> Seq<(Seq<char>, Seq<char>)> {
    Seq::new(v.len(), |i: int| (v[i].tenant@, v[i].endpoint@))
}

/// The tenants and endpoints of outcomes, whatever their order.
pub open spec fn outcome_bag(v: Seq<EntityOutcome>) -> Multiset<(Seq<char>, Seq<char>)> {
    outcome_pairs(v).to_multiset()
}

/// A run that can start no unit and has none running has one outcome for each unit: its
/// outcomes are those of all units, in some order, and so of every pair of a tenant and
/// an entity.
pub proof fn finished_run_has_every_outcome(run: JobRun)
    requires
        run.consistent(),
        !run.progress().can_start(),
        run.progress().running == 0,
    ensures
        run.results().len() == run.all().len(),
        forall|i: int| 0 <= i < run.all().len() ==> #[trigger] run.finished().contains(i),
        outcome_bag(run.results()) == unit_pairs(run.all()).to_multiset(),
{
    let pairs = unit_pairs(run.all());
    fits_in_range(run.finished(), run.all().len() as int);
    permutation_keeps_values(pairs, run.finished());
    assert forall|k: int| 0 <= k < run.results().len() implies #[trigger] outcome_pairs(
        run.results(),
    )[k] == picked(pairs, run.finished())[k] by {
        assert(is_for_unit(run.results()[k], run.all()[run.finished()[k]]));
        assert(0 <= run.finished()[k] < run.all().len());
    }
    assert(outcome_pairs(run.results()) =~= picked(pairs, run.finished()));
}

/// An outcome names its unit, and has an error if and only if the unit failed: it then
/// counts no page and no record; else it tells what the unit has to tell.
pub proof fn outcomes_tell_failure(
    o: EntityOutcome,
    unit: (Seq<char>, EntityType),
    result: Result<UnitDone, String>,
)
    requires
        is_unit_outcome(o, unit, result),
    ensures
        o.tenant@ == unit.0,
        o.endpoint@ == unit.1.name(),
        o.error is Some <==> result is Err,
        result matches Err(e) ==> o.error->0@ == e@ && o.pages == 0 && o.records == 0
            && o.termination@ == "error"@,
        result matches Ok(done) ==> o.pages == done.pages && o.records == done.records
            && o.termination@ == done.termination@,
{
}

} // verus!
