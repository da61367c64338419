//! Planning information attached to a headline: deadline, scheduled and
//! closed timestamps.

use vstd::prelude::*;
use crate::timestamp::{ts_format_spec, OrgTimestamp, TimestampV};

verus! {

/// A headline's planning block.
#[derive(Debug, Hash)]
pub struct OrgPlanning {
    pub deadline: Option<OrgTimestamp>,
    pub scheduled: Option<OrgTimestamp>,
    pub closed: Option<OrgTimestamp>,
}

/// The mathematical image of a planning block.
pub struct PlanningV {
    pub deadline: Option<TimestampV>,
    pub scheduled: Option<TimestampV>,
    pub closed: Option<TimestampV>,
}

impl View for OrgPlanning {
    type V = PlanningV;

    open spec fn view(&self) -> PlanningV {
        PlanningV {
            deadline: self.deadline.deep_view(),
            scheduled: self.scheduled.deep_view(),
            closed: self.closed.deep_view(),
        }
    }
}

impl OrgPlanning {
    /// A planning block with no timestamps.
    pub fn new() -> (r: OrgPlanning)
        ensures
            r@.deadline is None,
            r@.scheduled is None,
            r@.closed is None,
    {
        OrgPlanning { deadline: None, scheduled: None, closed: None }
    }

    /// Whether no timestamp is set.
    pub fn is_empty(&self) -> (r: bool)
        ensures
            r == (self@.deadline is None && self@.scheduled is None && self@.closed is None),
    {
        self.deadline.is_none() && self.scheduled.is_none() && self.closed.is_none()
    }

    /// The deadline rendered in org syntax, if set.
    pub fn formatted_deadline(&self) -> (r: Option<String>)
        ensures
            r is Some <==> self@.deadline is Some,
            match (&self.deadline, &r) {
                (Some(ts), Some(s)) => s@ == ts_format_spec(ts),
                _ => true,
            },
    {
        match &self.deadline {
            Some(ts) => Some(ts.format()),
            None => None,
        }
    }

    /// The scheduled timestamp rendered in org syntax, if set.
    pub fn formatted_scheduled(&self) -> (r: Option<String>)
        ensures
            r is Some <==> self@.scheduled is Some,
            match (&self.scheduled, &r) {
                (Some(ts), Some(s)) => s@ == ts_format_spec(ts),
                _ => true,
            },
    {
        match &self.scheduled {
            Some(ts) => Some(ts.format()),
            None => None,
        }
    }

    /// The closed timestamp rendered in org syntax, if set.
    pub fn formatted_closed(&self) -> (r: Option<String>)
        ensures
            r is Some <==> self@.closed is Some,
            match (&self.closed, &r) {
                (Some(ts), Some(s)) => s@ == ts_format_spec(ts),
                _ => true,
            },
    {
        match &self.closed {
            Some(ts) => Some(ts.format()),
            None => None,
        }
    }

    /// A copy of this planning block.
    pub fn copied(&self) -> (r: OrgPlanning)
        ensures
            r@ == self@,
    {
        OrgPlanning {
            deadline: clone_opt_ts(&self.deadline),
            scheduled: clone_opt_ts(&self.scheduled),
            closed: clone_opt_ts(&self.closed),
        }
    }
}

impl Clone for OrgPlanning {
    /// Cloning keeps all three timestamps.
    fn clone(&self) -> (r: OrgPlanning)
        ensures
            r@ == self@,
    {
        self.copied()
    }
}

impl Default for OrgPlanning {
    /// The default planning block is empty.
    fn default() -> (r: OrgPlanning)
        ensures
            r@.deadline is None,
            r@.scheduled is None,
            r@.closed is None,
    {
        OrgPlanning::new()
    }
}

/// A copy of an optional timestamp.
fn clone_opt_ts(o: &Option<OrgTimestamp>) -> (r: Option<OrgTimestamp>)
    ensures
        r.deep_view() == o.deep_view(),
{
    match o {
        Some(ts) => Some(ts.copied()),
        None => None,
    }
}

} // verus!
