//! Insertion cache: memoization of hard and soft route and activity
//! evaluations, keyed by `(actor, job, single, position)` identities.
//!
//! The maps are hash maps of the `hashbrown` crate, held behind trusted
//! wrappers; everything above the wrappers is verified. A cached result is
//! valid while no mutation touches the owning route: whoever mutates a
//! route purges that actor's slice with `remove`.

use vstd::prelude::*;

use crate::common::Cost;
use crate::contexts::RouteContext;
use crate::pipeline::{
    generic_value_bounded, spec_evaluate_hard_activity, spec_evaluate_hard_route,
    spec_evaluate_soft_activity, spec_evaluate_soft_route, spec_position_ctx,
    ActivityConstraintViolation, ConstraintPipeline, RouteConstraintViolation,
};
use crate::problem::Job;
use crate::solution::Activity;

verus! {

/// A cache key: actor identity, job identity, single-visit identity and
/// encoded position. Route-level entries use zero for the last two.
pub type CacheKey = (u64, u64, u64, u64);

/// One memoized evaluation result.
#[derive(Clone, Copy, PartialEq, Eq, Structural, Debug)]
pub enum CacheEntry {
    /// A hard route verdict.
    HardRoute(Option<RouteConstraintViolation>),
    /// A soft route estimate.
    SoftRoute(Cost),
    /// A hard activity verdict.
    HardActivity(Option<ActivityConstraintViolation>),
    /// A soft activity estimate.
    SoftActivity(Cost),
}

/// A hash map from cache keys to memoized results. The map itself is a
/// `hashbrown` hash map; Verus sees it only through `cache_entries` and
/// the trusted wrappers below.
#[verifier::external_body]
pub struct CacheMap {
    inner: hashbrown::HashMap<CacheKey, CacheEntry>,
}

/// What a cache map holds, as a mathematical map.
pub uninterp spec fn cache_entries(m: CacheMap) -> Map<CacheKey, CacheEntry>;

impl View for CacheMap {
    type V = Map<CacheKey, CacheEntry>;

    closed spec fn view(&self) -> Map<CacheKey, CacheEntry> {
        cache_entries(*self)
    }
}


/// Relies on `hashbrown::HashMap::with_capacity`: a fresh map holds
/// nothing, whatever space it reserves.
#[verifier::external_body]
fn cm_with_capacity(capacity: usize) -> (r: CacheMap)
    ensures
        cache_entries(r) == r@,
        r@.dom() =~= Set::<CacheKey>::empty(),
{
    CacheMap { inner: hashbrown::HashMap::with_capacity(capacity) }
}

/// Relies on `hashbrown::HashMap::get`: returns the value stored under the
/// key, if any.
#[verifier::external_body]
fn cm_get(m: &CacheMap, key: CacheKey) -> (r: Option<CacheEntry>)
    ensures
        r == if m@.dom().contains(key) {
            Some(m@[key])
        } else {
            None::<CacheEntry>
        },
{
    m.inner.get(&key).copied()
}

/// Relies on `hashbrown::HashMap::insert`: stores the value under the key,
/// replacing any previous one.
#[verifier::external_body]
fn cm_insert(m: &mut CacheMap, key: CacheKey, value: CacheEntry)
    ensures
        final(m)@ == old(m)@.insert(key, value),
{
    m.inner.insert(key, value);
}

/// Relies on `hashbrown::HashMap::retain`: keeps exactly the entries whose
/// key belongs to another actor.
#[verifier::external_body]
fn cm_remove_actor(m: &mut CacheMap, actor: u64)
    ensures
        final(m)@ == Map::<CacheKey, CacheEntry>::new(
            |k: CacheKey| old(m)@.dom().contains(k) && k.0 != actor,
            |k: CacheKey| old(m)@[k],
        ),
{
    m.inner.retain(|k, _| keep_other_actor(k.0, actor));
}

/// Relies on `hashbrown::HashMap::retain`: keeps exactly the entries whose
/// actor is listed.
#[verifier::external_body]
fn cm_retain_actors(m: &mut CacheMap, keep: &Vec<u64>)
    ensures
        final(m)@ == Map::<CacheKey, CacheEntry>::new(
            |k: CacheKey| old(m)@.dom().contains(k) && keep@.contains(k.0),
            |k: CacheKey| old(m)@[k],
        ),
{
    m.inner.retain(|k, _| u64_vec_contains(keep, k.0));
}

/// Relies on `hashbrown::HashMap::clone`: the copy holds the same entries;
/// keys and values are plain copyable data.
#[verifier::external_body]
fn cm_clone(m: &CacheMap) -> (r: CacheMap)
    ensures
        cache_entries(r) == m@,
{
    CacheMap { inner: m.inner.clone() }
}

/// Relies on `hashbrown::HashMap::extend`: entries of the consumed map are
/// added, replacing colliding ones.
#[verifier::external_body]
fn cm_extend(m: &mut CacheMap, other: CacheMap)
    ensures
        final(m)@ == old(m)@.union_prefer_right(
            other@,
        ),
{
    m.inner.extend(other.inner);
}

/// Whether a key's actor differs from the purged one.
fn keep_other_actor(key_actor: u64, actor: u64) -> (r: bool)
    ensures
        r == (key_actor != actor),
{
    key_actor != actor
}

/// Whether a vector of actors lists the given one.
fn u64_vec_contains(v: &Vec<u64>, x: u64) -> (r: bool)
    ensures
        r == v@.contains(x),
{
    let mut i: usize = 0;
    while i < v.len()
        invariant
            0 <= i <= v@.len(),
            forall|j: int| 0 <= j < i ==> v@[j] != x,
        decreases v@.len() - i,
    {
        if v[i] == x {
            return true;
        }
        i = i + 1;
    }
    false
}

/// The cache key of a route-level evaluation.
pub open spec fn route_key(actor: u64, job: u64) -> CacheKey {
    (actor, job, 0u64, 0u64)
}

/// The cache key of an activity-level evaluation.
pub open spec fn activity_key(actor: u64, job: u64, single: u64, position: u64) -> CacheKey {
    (actor, job, single, position)
}

/// The per-solution cache: entries survive for a whole generation, until
/// the owning route is mutated.
pub struct SolutionCache {
    /// Hard route verdicts.
    pub hard_route: CacheMap,
    /// Soft route estimates.
    pub soft_route: CacheMap,
    /// Hard activity verdicts.
    pub hard_activity: CacheMap,
    /// Soft activity estimates.
    pub soft_activity: CacheMap,
}

impl Default for SolutionCache {
    /// An empty cache.
    fn default() -> (r: SolutionCache)
        ensures
            r.hard_route@ == Map::<CacheKey, CacheEntry>::empty(),
            r.soft_route@ == Map::<CacheKey, CacheEntry>::empty(),
            r.hard_activity@ == Map::<CacheKey, CacheEntry>::empty(),
            r.soft_activity@ == Map::<CacheKey, CacheEntry>::empty(),
    {
        let r = SolutionCache {
            hard_route: cm_with_capacity(16),
            soft_route: cm_with_capacity(16),
            hard_activity: cm_with_capacity(16),
            soft_activity: cm_with_capacity(16),
        };
        proof {
            assert(r.hard_route@ =~= Map::<CacheKey, CacheEntry>::empty());
            assert(r.soft_route@ =~= Map::<CacheKey, CacheEntry>::empty());
            assert(r.hard_activity@ =~= Map::<CacheKey, CacheEntry>::empty());
            assert(r.soft_activity@ =~= Map::<CacheKey, CacheEntry>::empty());
        }
        r
    }
}

impl SolutionCache {
    /// A projection of the cache retaining only the entries of the listed
    /// actors, used when forking an individual for a branch.
    pub fn clone_only_with(&self, actors: &Vec<u64>) -> (r: SolutionCache)
        ensures
            r.hard_route@ == Map::<CacheKey, CacheEntry>::new(
                |k: CacheKey| self.hard_route@.dom().contains(k) && actors@.contains(k.0),
                |k: CacheKey| self.hard_route@[k],
            ),
            r.soft_route@ == Map::<CacheKey, CacheEntry>::new(
                |k: CacheKey| self.soft_route@.dom().contains(k) && actors@.contains(k.0),
                |k: CacheKey| self.soft_route@[k],
            ),
            r.hard_activity@ == Map::<CacheKey, CacheEntry>::new(
                |k: CacheKey| self.hard_activity@.dom().contains(k) && actors@.contains(k.0),
                |k: CacheKey| self.hard_activity@[k],
            ),
            r.soft_activity@ == Map::<CacheKey, CacheEntry>::new(
                |k: CacheKey| self.soft_activity@.dom().contains(k) && actors@.contains(k.0),
                |k: CacheKey| self.soft_activity@[k],
            ),
    {
        let mut hard_route = cm_clone(&self.hard_route);
        let mut soft_route = cm_clone(&self.soft_route);
        let mut hard_activity = cm_clone(&self.hard_activity);
        let mut soft_activity = cm_clone(&self.soft_activity);
        cm_retain_actors(&mut hard_route, actors);
        cm_retain_actors(&mut soft_route, actors);
        cm_retain_actors(&mut hard_activity, actors);
        cm_retain_actors(&mut soft_activity, actors);
        SolutionCache { hard_route, soft_route, hard_activity, soft_activity }
    }

    /// Whether a hard route verdict is cached for the actor and job.
    pub fn contains_hard_route(&self, actor: u64, job: u64) -> (r: bool)
        ensures
            r == self.hard_route@.dom().contains(route_key(actor, job)),
    {
        cm_get(&self.hard_route, (actor, job, 0, 0)).is_some()
    }

    /// Purges one actor's slice of the cache: afterwards no entry for the
    /// actor exists in any of the four sub-maps.
    pub fn remove(&mut self, actor: u64)
        ensures
            final(self).hard_route@ == Map::<CacheKey, CacheEntry>::new(
                |k: CacheKey| old(self).hard_route@.dom().contains(k) && k.0 != actor,
                |k: CacheKey| old(self).hard_route@[k],
            ),
            final(self).soft_route@ == Map::<CacheKey, CacheEntry>::new(
                |k: CacheKey| old(self).soft_route@.dom().contains(k) && k.0 != actor,
                |k: CacheKey| old(self).soft_route@[k],
            ),
            final(self).hard_activity@ == Map::<CacheKey, CacheEntry>::new(
                |k: CacheKey| old(self).hard_activity@.dom().contains(k) && k.0 != actor,
                |k: CacheKey| old(self).hard_activity@[k],
            ),
            final(self).soft_activity@ == Map::<CacheKey, CacheEntry>::new(
                |k: CacheKey| old(self).soft_activity@.dom().contains(k) && k.0 != actor,
                |k: CacheKey| old(self).soft_activity@[k],
            ),
            forall|k: CacheKey|
                #[trigger] final(self).hard_route@.dom().contains(k) ==> k.0 != actor,
            forall|k: CacheKey|
                #[trigger] final(self).soft_route@.dom().contains(k) ==> k.0 != actor,
            forall|k: CacheKey|
                #[trigger] final(self).hard_activity@.dom().contains(k) ==> k.0 != actor,
            forall|k: CacheKey|
                #[trigger] final(self).soft_activity@.dom().contains(k) ==> k.0 != actor,
    {
        cm_remove_actor(&mut self.hard_route, actor);
        cm_remove_actor(&mut self.soft_route, actor);
        cm_remove_actor(&mut self.hard_activity, actor);
        cm_remove_actor(&mut self.soft_activity, actor);
    }
}

/// The per-job scratch cache filled while one candidate job is evaluated.
pub struct JobCache {
    /// Hard route verdicts.
    pub hard_route: Option<CacheMap>,
    /// Soft route estimates.
    pub soft_route: Option<CacheMap>,
    /// Hard activity verdicts.
    pub hard_activity: Option<CacheMap>,
    /// Soft activity estimates.
    pub soft_activity: Option<CacheMap>,
}

impl Default for JobCache {
    /// An empty scratch cache.
    fn default() -> (r: JobCache)
        ensures
            r.hard_route is None,
            r.soft_route is None,
            r.hard_activity is None,
            r.soft_activity is None,
    {
        JobCache { hard_route: None, soft_route: None, hard_activity: None, soft_activity: None }
    }
}

/// A route-level map entry, when present, holds the pipeline's hard route
/// verdict for the given contexts.
pub open spec fn hard_route_entry_valid(
    entries: Map<CacheKey, CacheEntry>,
    key: CacheKey,
    p: ConstraintPipeline,
    ctx: RouteContext,
    job: Job,
) -> bool {
    entries.dom().contains(key) ==> entries[key] == CacheEntry::HardRoute(
        spec_evaluate_hard_route(p, ctx, job),
    )
}

/// A route-level map entry, when present, holds the pipeline's soft route
/// estimate for the given contexts.
pub open spec fn soft_route_entry_valid(
    entries: Map<CacheKey, CacheEntry>,
    key: CacheKey,
    p: ConstraintPipeline,
    ctx: RouteContext,
    job: Job,
) -> bool {
    entries.dom().contains(key) ==> entries[key] == CacheEntry::SoftRoute(
        spec_evaluate_soft_route(p, ctx, job) as i64,
    )
}

/// An activity-level map entry, when present, holds the pipeline's hard
/// activity verdict for the given position.
pub open spec fn hard_activity_entry_valid(
    entries: Map<CacheKey, CacheEntry>,
    key: CacheKey,
    p: ConstraintPipeline,
    ctx: RouteContext,
    target: Activity,
    position: int,
) -> bool {
    entries.dom().contains(key) ==> entries[key] == CacheEntry::HardActivity(
        spec_evaluate_hard_activity(p, ctx, spec_position_ctx(ctx, target, position)),
    )
}

/// An activity-level map entry, when present, holds the pipeline's soft
/// activity estimate for the given position.
pub open spec fn soft_activity_entry_valid(
    entries: Map<CacheKey, CacheEntry>,
    key: CacheKey,
    p: ConstraintPipeline,
    ctx: RouteContext,
    target: Activity,
    position: int,
) -> bool {
    entries.dom().contains(key) ==> entries[key] == CacheEntry::SoftActivity(
        spec_evaluate_soft_activity(p, ctx, spec_position_ctx(ctx, target, position)) as i64,
    )
}

/// An entity holding both cache levels while candidate insertions are
/// evaluated against a constraint pipeline.
pub struct InsertionCache<'a> {
    /// The pipeline evaluated on cache misses.
    pub constraint: &'a ConstraintPipeline,
    /// The per-solution cache, when the caller keeps one.
    pub solution: Option<&'a SolutionCache>,
    /// The per-job scratch cache.
    pub job: JobCache,
}

impl<'a> InsertionCache<'a> {
    /// An insertion cache without underlying per-solution data.
    pub fn empty(constraint: &'a ConstraintPipeline) -> (r: InsertionCache<'a>)
        ensures
            r.constraint == constraint,
            r.solution is None,
            r.job.hard_route is None,
            r.job.soft_route is None,
            r.job.hard_activity is None,
            r.job.soft_activity is None,
    {
        InsertionCache { constraint, solution: None, job: JobCache::default() }
    }

    /// An insertion cache over the solution's cache.
    pub fn new(constraint: &'a ConstraintPipeline, solution: &'a SolutionCache) -> (r:
        InsertionCache<'a>)
        ensures
            r.constraint == constraint,
            r.solution == Some(solution),
            r.job.hard_route is None,
            r.job.soft_route is None,
            r.job.hard_activity is None,
            r.job.soft_activity is None,
    {
        InsertionCache { constraint, solution: Some(solution), job: JobCache::default() }
    }

    /// Evaluates the hard route constraint, looking the result up in the
    /// per-solution cache first, then in the per-job cache, and otherwise
    /// calling the pipeline and memoizing the verdict. The answer always
    /// equals a fresh pipeline evaluation on the same contexts: memoized
    /// results are never different from recomputed ones.
    pub fn evaluate_hard_route(
        &mut self,
        route_ctx: &RouteContext,
        job: &Job,
        actor_id: u64,
        job_id: u64,
    ) -> (r: Option<RouteConstraintViolation>)
        requires
            match old(self).solution {
                Some(sc) => hard_route_entry_valid(
                    sc.hard_route@,
                    route_key(actor_id, job_id),
                    *old(self).constraint,
                    *route_ctx,
                    *job,
                ),
                None => true,
            },
            match old(self).job.hard_route {
                Some(m) => hard_route_entry_valid(
                    m@,
                    route_key(actor_id, job_id),
                    *old(self).constraint,
                    *route_ctx,
                    *job,
                ),
                None => true,
            },
        ensures
            r == spec_evaluate_hard_route(*old(self).constraint, *route_ctx, *job),
            final(self).constraint == old(self).constraint,
            final(self).solution == old(self).solution,
            final(self).job.soft_route == old(self).job.soft_route,
            final(self).job.hard_activity == old(self).job.hard_activity,
            final(self).job.soft_activity == old(self).job.soft_activity,
            match final(self).job.hard_route {
                Some(m) => hard_route_entry_valid(
                    m@,
                    route_key(actor_id, job_id),
                    *old(self).constraint,
                    *route_ctx,
                    *job,
                ),
                None => true,
            },
    {
        let key: CacheKey = (actor_id, job_id, 0, 0);
        if let Some(sc) = self.solution {
            match cm_get(&sc.hard_route, key) {
                Some(CacheEntry::HardRoute(v)) => {
                    return v;
                },
                _ => (),
            }
        }
        if let Some(m) = &self.job.hard_route {
            match cm_get(m, key) {
                Some(CacheEntry::HardRoute(v)) => {
                    return v;
                },
                _ => (),
            }
        }
        let result = self.constraint.evaluate_hard_route(route_ctx, job);
        let mut m = match self.job.hard_route.take() {
            Some(m) => m,
            None => cm_with_capacity(16),
        };
        cm_insert(&mut m, key, CacheEntry::HardRoute(result));
        self.job.hard_route = Some(m);
        result
    }

    /// Evaluates the soft route constraint with the same memoization
    /// discipline; the answer always equals a fresh pipeline evaluation.
    pub fn evaluate_soft_route(
        &mut self,
        route_ctx: &RouteContext,
        job: &Job,
        actor_id: u64,
        job_id: u64,
    ) -> (r: Cost)
        requires
            forall|i: int|
                0 <= i < old(self).constraint.modules@.len() ==> generic_value_bounded(
                    #[trigger] old(self).constraint.modules@[i],
                    *route_ctx,
                ),
            match old(self).solution {
                Some(sc) => soft_route_entry_valid(
                    sc.soft_route@,
                    route_key(actor_id, job_id),
                    *old(self).constraint,
                    *route_ctx,
                    *job,
                ),
                None => true,
            },
            match old(self).job.soft_route {
                Some(m) => soft_route_entry_valid(
                    m@,
                    route_key(actor_id, job_id),
                    *old(self).constraint,
                    *route_ctx,
                    *job,
                ),
                None => true,
            },
        ensures
            r as int == spec_evaluate_soft_route(*old(self).constraint, *route_ctx, *job),
            final(self).constraint == old(self).constraint,
            final(self).solution == old(self).solution,
            final(self).job.hard_route == old(self).job.hard_route,
            final(self).job.hard_activity == old(self).job.hard_activity,
            final(self).job.soft_activity == old(self).job.soft_activity,
            match final(self).job.soft_route {
                Some(m) => soft_route_entry_valid(
                    m@,
                    route_key(actor_id, job_id),
                    *old(self).constraint,
                    *route_ctx,
                    *job,
                ),
                None => true,
            },
    {
        let key: CacheKey = (actor_id, job_id, 0, 0);
        if let Some(sc) = self.solution {
            match cm_get(&sc.soft_route, key) {
                Some(CacheEntry::SoftRoute(v)) => {
                    return v;
                },
                _ => (),
            }
        }
        if let Some(m) = &self.job.soft_route {
            match cm_get(m, key) {
                Some(CacheEntry::SoftRoute(v)) => {
                    return v;
                },
                _ => (),
            }
        }
        let result = self.constraint.evaluate_soft_route(route_ctx, job);
        let mut m = match self.job.soft_route.take() {
            Some(m) => m,
            None => cm_with_capacity(16),
        };
        cm_insert(&mut m, key, CacheEntry::SoftRoute(result));
        self.job.soft_route = Some(m);
        result
    }

    /// Evaluates the hard activity constraint at a candidate position with
    /// the same memoization discipline; the answer always equals a fresh
    /// pipeline evaluation.
    pub fn evaluate_hard_activity(
        &mut self,
        route_ctx: &RouteContext,
        target: &Activity,
        position: usize,
        actor_id: u64,
        job_id: u64,
        single_id: u64,
    ) -> (r: Option<ActivityConstraintViolation>)
        requires
            1 <= position < route_ctx.route.tour.activities@.len(),
            position <= u64::MAX,
            match old(self).solution {
                Some(sc) => hard_activity_entry_valid(
                    sc.hard_activity@,
                    activity_key(actor_id, job_id, single_id, position as u64),
                    *old(self).constraint,
                    *route_ctx,
                    *target,
                    position as int,
                ),
                None => true,
            },
            match old(self).job.hard_activity {
                Some(m) => hard_activity_entry_valid(
                    m@,
                    activity_key(actor_id, job_id, single_id, position as u64),
                    *old(self).constraint,
                    *route_ctx,
                    *target,
                    position as int,
                ),
                None => true,
            },
        ensures
            r == spec_evaluate_hard_activity(
                *old(self).constraint,
                *route_ctx,
                spec_position_ctx(*route_ctx, *target, position as int),
            ),
            final(self).constraint == old(self).constraint,
            final(self).solution == old(self).solution,
            final(self).job.hard_route == old(self).job.hard_route,
            final(self).job.soft_route == old(self).job.soft_route,
            final(self).job.soft_activity == old(self).job.soft_activity,
            match final(self).job.hard_activity {
                Some(m) => hard_activity_entry_valid(
                    m@,
                    activity_key(actor_id, job_id, single_id, position as u64),
                    *old(self).constraint,
                    *route_ctx,
                    *target,
                    position as int,
                ),
                None => true,
            },
    {
        let key: CacheKey = (actor_id, job_id, single_id, position as u64);
        if let Some(sc) = self.solution {
            match cm_get(&sc.hard_activity, key) {
                Some(CacheEntry::HardActivity(v)) => {
                    return v;
                },
                _ => (),
            }
        }
        if let Some(m) = &self.job.hard_activity {
            match cm_get(m, key) {
                Some(CacheEntry::HardActivity(v)) => {
                    return v;
                },
                _ => (),
            }
        }
        let result = self.constraint.evaluate_hard_activity_at(route_ctx, target, position);
        let mut m = match self.job.hard_activity.take() {
            Some(m) => m,
            None => cm_with_capacity(16),
        };
        cm_insert(&mut m, key, CacheEntry::HardActivity(result));
        self.job.hard_activity = Some(m);
        result
    }

    /// Evaluates the soft activity constraint at a candidate position with
    /// the same memoization discipline; the answer always equals a fresh
    /// pipeline evaluation.
    pub fn evaluate_soft_activity(
        &mut self,
        route_ctx: &RouteContext,
        target: &Activity,
        position: usize,
        actor_id: u64,
        job_id: u64,
        single_id: u64,
    ) -> (r: Cost)
        requires
            position <= u64::MAX,
            match old(self).solution {
                Some(sc) => soft_activity_entry_valid(
                    sc.soft_activity@,
                    activity_key(actor_id, job_id, single_id, position as u64),
                    *old(self).constraint,
                    *route_ctx,
                    *target,
                    position as int,
                ),
                None => true,
            },
            match old(self).job.soft_activity {
                Some(m) => soft_activity_entry_valid(
                    m@,
                    activity_key(actor_id, job_id, single_id, position as u64),
                    *old(self).constraint,
                    *route_ctx,
                    *target,
                    position as int,
                ),
                None => true,
            },
        ensures
            r as int == spec_evaluate_soft_activity(
                *old(self).constraint,
                *route_ctx,
                spec_position_ctx(*route_ctx, *target, position as int),
            ),
            final(self).constraint == old(self).constraint,
            final(self).solution == old(self).solution,
            final(self).job.hard_route == old(self).job.hard_route,
            final(self).job.soft_route == old(self).job.soft_route,
            final(self).job.hard_activity == old(self).job.hard_activity,
            match final(self).job.soft_activity {
                Some(m) => soft_activity_entry_valid(
                    m@,
                    activity_key(actor_id, job_id, single_id, position as u64),
                    *old(self).constraint,
                    *route_ctx,
                    *target,
                    position as int,
                ),
                None => true,
            },
    {
        let key: CacheKey = (actor_id, job_id, single_id, position as u64);
        if let Some(sc) = self.solution {
            match cm_get(&sc.soft_activity, key) {
                Some(CacheEntry::SoftActivity(v)) => {
                    return v;
                },
                _ => (),
            }
        }
        if let Some(m) = &self.job.soft_activity {
            match cm_get(m, key) {
                Some(CacheEntry::SoftActivity(v)) => {
                    return v;
                },
                _ => (),
            }
        }
        let ghost actx = spec_position_ctx(*route_ctx, *target, position as int);
        let result = {
            let ghost mods = self.constraint.modules@;
            let mut total: crate::common::Cost = 0;
            let mut k: usize = 0;
            while k < self.constraint.modules.len()
                invariant
                    mods == self.constraint.modules@,
                    0 <= k <= mods.len(),
                    total as int == crate::pipeline::spec_soft_activity_upto(
                        mods,
                        *route_ctx,
                        actx,
                        k as int,
                    ),
                decreases mods.len() - k,
            {
                let estimate: crate::common::Cost = match &self.constraint.modules[k] {
                    crate::pipeline::ConstraintModuleVariant::Capacity(_) => 0,
                    crate::pipeline::ConstraintModuleVariant::Generic(_) => 0,
                };
                total = crate::common::sat_add(total, estimate);
                k = k + 1;
            }
            total
        };
        let mut m = match self.job.soft_activity.take() {
            Some(m) => m,
            None => cm_with_capacity(16),
        };
        cm_insert(&mut m, key, CacheEntry::SoftActivity(result));
        self.job.soft_activity = Some(m);
        result
    }

    /// The constraint pipeline the cache evaluates on misses.
    pub fn get_constraint(&self) -> (r: &'a ConstraintPipeline)
        ensures
            r == self.constraint,
    {
        self.constraint
    }

    /// Merges the scratch caches of two evaluations into one: per map,
    /// the union of both sides' entries, the right side winning on
    /// collision.
    pub fn merge(left: InsertionCache<'a>, right: InsertionCache<'a>) -> (r: InsertionCache<'a>)
        ensures
            r.constraint == left.constraint,
            r.solution == left.solution,
            merged_map_ok(r.job.hard_route, left.job.hard_route, right.job.hard_route),
            merged_map_ok(r.job.soft_route, left.job.soft_route, right.job.soft_route),
            merged_map_ok(r.job.hard_activity, left.job.hard_activity, right.job.hard_activity),
            merged_map_ok(r.job.soft_activity, left.job.soft_activity, right.job.soft_activity),
    {
        InsertionCache {
            constraint: left.constraint,
            solution: left.solution,
            job: JobCache {
                hard_route: merge_maps(left.job.hard_route, right.job.hard_route),
                soft_route: merge_maps(left.job.soft_route, right.job.soft_route),
                hard_activity: merge_maps(left.job.hard_activity, right.job.hard_activity),
                soft_activity: merge_maps(left.job.soft_activity, right.job.soft_activity),
            },
        }
    }

    /// Merges the scratch cache into the per-solution cache at the end of
    /// a job's evaluation round.
    pub fn synchronize(solution: &mut SolutionCache, job: JobCache)
        ensures
            match job.hard_route {
                Some(m) => final(solution).hard_route@ == old(solution).hard_route@.union_prefer_right(m@),
                None => final(solution).hard_route@ == old(solution).hard_route@,
            },
            match job.soft_route {
                Some(m) => final(solution).soft_route@ == old(solution).soft_route@.union_prefer_right(m@),
                None => final(solution).soft_route@ == old(solution).soft_route@,
            },
            match job.hard_activity {
                Some(m) => final(solution).hard_activity@ == old(solution).hard_activity@.union_prefer_right(m@),
                None => final(solution).hard_activity@ == old(solution).hard_activity@,
            },
            match job.soft_activity {
                Some(m) => final(solution).soft_activity@ == old(solution).soft_activity@.union_prefer_right(m@),
                None => final(solution).soft_activity@ == old(solution).soft_activity@,
            },
    {
        if let Some(m) = job.hard_route {
            cm_extend(&mut solution.hard_route, m);
        }
        if let Some(m) = job.soft_route {
            cm_extend(&mut solution.soft_route, m);
        }
        if let Some(m) = job.hard_activity {
            cm_extend(&mut solution.hard_activity, m);
        }
        if let Some(m) = job.soft_activity {
            cm_extend(&mut solution.soft_activity, m);
        }
    }
}

/// A merged optional map holds the union of both sides' entries, the
/// right side winning on collision.
pub open spec fn merged_map_ok(
    merged: Option<CacheMap>,
    left: Option<CacheMap>,
    right: Option<CacheMap>,
) -> bool {
    match (left, right) {
        (Some(l), None) => merged matches Some(m) && m@ == l@,
        (None, Some(rr)) => merged matches Some(m) && m@ == rr@,
        (Some(l), Some(rr)) => merged matches Some(m) && m@ == l@.union_prefer_right(rr@),
        (None, None) => merged is None,
    }
}

/// Merges two optional cache maps, preferring the right one on collision.
fn merge_maps(left: Option<CacheMap>, right: Option<CacheMap>) -> (r: Option<CacheMap>)
    ensures
        match (left, right) {
            (Some(l), None) => r matches Some(m) && m@ == l@,
            (None, Some(rr)) => r matches Some(m) && m@ == rr@,
            (Some(l), Some(rr)) => r matches Some(m) && m@ == l@.union_prefer_right(rr@),
            (None, None) => r is None,
        },
{
    match (left, right) {
        (Some(l), None) => Some(l),
        (None, Some(rr)) => Some(rr),
        (Some(mut l), Some(rr)) => {
            cm_extend(&mut l, rr);
            Some(l)
        },
        (None, None) => None,
    }
}


} // verus!
