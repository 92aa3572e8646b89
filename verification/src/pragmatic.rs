//! Extra constraints and defaults of the rich problem format: job type
//! markers, vehicle binding helpers, and the default estimates and orders
//! of unassigned jobs.

use vstd::prelude::*;

use crate::common::Cost;
use crate::contexts::RouteContext;
use crate::problem::{Dimensions, Job, Single, VehicleIdDimension};
use crate::solution::{Activity, Route};

verus! {

/// A trait to get or set the job type.
pub trait JobTypeDimension: Sized {
    /// The job type held, as a sequence of characters.
    spec fn spec_job_type(&self) -> Option<Seq<char>>;

    /// The bag with the job type erased: everything a job-type write must
    /// leave alone.
    spec fn spec_without_job_type(&self) -> Self;

    /// Sets the job type; every other dimension is unchanged.
    fn set_job_type(&mut self, id: &str)
        ensures
            final(self).spec_job_type() == Some(id@),
            final(self).spec_without_job_type() == old(self).spec_without_job_type(),
    ;

    /// Gets the job type if present.
    fn get_job_type(&self) -> (r: Option<&String>)
        ensures
            match r {
                Some(s) => self.spec_job_type() == Some(s@),
                None => self.spec_job_type() is None,
            },
    ;
}

impl JobTypeDimension for Dimensions {
    open spec fn spec_job_type(&self) -> Option<Seq<char>> {
        match self.job_type {
            Some(s) => Some(s@),
            None => None,
        }
    }

    open spec fn spec_without_job_type(&self) -> Dimensions {
        Dimensions { job_type: None, ..*self }
    }

    fn set_job_type(&mut self, id: &str) {
        self.job_type = Some(id.to_string());
    }

    fn get_job_type(&self) -> (r: Option<&String>) {
        self.job_type.as_ref()
    }
}

/// The single visit served at an activity, when the activity serves one.
pub fn as_single_job(activity: &Activity) -> (r: Option<&Single>)
    ensures
        match r {
            Some(s) => activity.job == Some(*s),
            None => activity.job is None,
        },
{
    activity.job.as_ref()
}

/// The shift index of a dimensions bag that carries one.
pub fn get_shift_index(dimens: &Dimensions) -> (r: usize)
    requires
        dimens.shift_index is Some,
    ensures
        Some(r) == dimens.shift_index,
{
    match &dimens.shift_index {
        Some(i) => *i,
        None => 0,
    }
}

/// The vehicle id dimension of a single visit.
pub fn get_vehicle_id_from_job(job: &Single) -> (r: Option<&String>)
    ensures
        match r {
            Some(s) => job.dimens.vehicle_id matches Some(v) && v@ == s@,
            None => job.dimens.vehicle_id is None,
        },
{
    job.dimens.get_vehicle_id()
}

/// Whether the route is served by the vehicle with the given id and shift.
pub fn is_correct_vehicle(route: &Route, target_id: &str, target_shift: usize) -> (r: bool)
    requires
        route.actor.vehicle.dimens.vehicle_id is Some,
        route.actor.vehicle.dimens.shift_index is Some,
    ensures
        r == ({
            &&& match route.actor.vehicle.dimens.vehicle_id {
                Some(id) => id@ == target_id@,
                None => false,
            }
            &&& route.actor.vehicle.dimens.shift_index == Some(target_shift)
        }),
{
    let id_matches = match &route.actor.vehicle.dimens.vehicle_id {
        Some(id) => id.eq(&target_id.to_owned()),
        None => false,
    };
    let shift_matches = match &route.actor.vehicle.dimens.shift_index {
        Some(s) => *s == target_shift,
        None => false,
    };
    id_matches && shift_matches
}

/// Whether a single visit is bound to the route's vehicle and shift.
pub fn is_single_belongs_to_route(ctx: &RouteContext, single: &Single) -> (r: bool)
    requires
        single.dimens.vehicle_id is Some,
        single.dimens.shift_index is Some,
        ctx.route.actor.vehicle.dimens.vehicle_id is Some,
        ctx.route.actor.vehicle.dimens.shift_index is Some,
    ensures
        r == ({
            &&& match (single.dimens.vehicle_id, ctx.route.actor.vehicle.dimens.vehicle_id) {
                (Some(a), Some(b)) => a@ == b@,
                _ => false,
            }
            &&& single.dimens.shift_index == ctx.route.actor.vehicle.dimens.shift_index
        }),
{
    let id_matches = match (
        &single.dimens.vehicle_id,
        &ctx.route.actor.vehicle.dimens.vehicle_id,
    ) {
        (Some(a), Some(b)) => a.eq(b),
        _ => false,
    };
    let shift_matches = match (
        &single.dimens.shift_index,
        &ctx.route.actor.vehicle.dimens.shift_index,
    ) {
        (Some(a), Some(b)) => *a == *b,
        _ => false,
    };
    id_matches && shift_matches
}

/// Where an order objective places a job by default.
#[derive(Clone, Copy, PartialEq, Eq, Structural, Debug)]
pub enum OrderResult {
    /// The job carries an explicit order value.
    Value(Cost),
    /// The job uses the default order.
    Default,
    /// The job is ignored by the order objective.
    Ignored,
}

/// The default unassigned-job estimate by job type: a missed break costs
/// the penalty, a missed reload costs nothing, everything else costs the
/// unit.
pub open spec fn spec_unassigned_job_estimate(job: Job, penalty: Cost, unit: Cost) -> Cost {
    match job.spec_dimens().job_type {
        Some(t) => if t@ == "break"@ {
            penalty
        } else if t@ == "reload"@ {
            0
        } else {
            unit
        },
        None => unit,
    }
}

/// The default estimate of leaving a job unassigned.
pub fn get_unassigned_job_estimate(job: &Job, break_penalty: Cost, unit_cost: Cost) -> (r: Cost)
    ensures
        r == spec_unassigned_job_estimate(*job, break_penalty, unit_cost),
{
    match job.dimens().get_job_type() {
        Some(t) => {
            if t.eq(&("break".to_owned())) {
                break_penalty
            } else if t.eq(&("reload".to_owned())) {
                0
            } else {
                unit_cost
            }
        },
        None => unit_cost,
    }
}

/// The default order of a single visit by job type: synthetic markers
/// (break, reload, dispatch) are ignored by the order objective; everything
/// else uses the default order.
pub open spec fn spec_default_order(single: Single) -> OrderResult {
    match single.dimens.job_type {
        Some(t) => if t@ == "break"@ || t@ == "reload"@ || t@ == "dispatch"@ {
            OrderResult::Ignored
        } else {
            OrderResult::Default
        },
        None => OrderResult::Default,
    }
}

/// The default order of a single visit.
pub fn get_default_order(single: &Single) -> (r: OrderResult)
    ensures
        r == spec_default_order(*single),
{
    match single.dimens.get_job_type() {
        Some(t) => {
            if t.eq(&("break".to_owned())) || t.eq(&("reload".to_owned())) || t.eq(
                &("dispatch".to_owned()),
            ) {
                OrderResult::Ignored
            } else {
                OrderResult::Default
            }
        },
        None => OrderResult::Default,
    }
}

/// Whether a single visit is a recharge station marker.
pub fn is_recharge_single(single: &Single) -> (r: bool)
    ensures
        r == match single.dimens.job_type {
            Some(t) => t@ == "recharge"@,
            None => false,
        },
{
    match single.dimens.get_job_type() {
        Some(t) => t.eq(&("recharge".to_owned())),
        None => false,
    }
}

} // verus!
