//! Setting an execution up: the plan's fabric, the units to spawn, and the
//! join that waits for them.
use vstd::prelude::*;
use crate::fabric::{build_fabric, fabric_of, plan_error, plan_ok, Fabric, OperationDescriptor, PlanError};
use crate::tasks::{fresh_join, task_plan, task_plan_spec, JoinState, TaskLabel};

verus! {

/// An execution that is wired and ready to run.
pub struct ComputeExecutor {
    /// The channels between operations and into the output writer.
    pub fabric: Fabric,
    /// The units to spawn, in order.
    pub tasks: Vec<TaskLabel>,
    /// The join over exactly those units.
    pub join: JoinState,
}

impl ComputeExecutor {
    /// Wires `plan` and lists its units: the output writer, every operation
    /// (last first, so each has all its consumers when it is created), and
    /// the prefetcher when enabled. Fails, with nothing wired, on a plan that
    /// cannot be wired.
    pub fn try_spawn(plan: &Vec<OperationDescriptor>, prefetch: bool) -> (r: Result<ComputeExecutor, PlanError>)
        ensures
            r is Ok <==> plan_ok(plan@),
            match r {
                Ok(e) => {
                    &&& fabric_of(plan@, e.fabric)
                    &&& e.tasks@ == task_plan_spec(plan@.len(), prefetch)
                    &&& e.join == fresh_join(e.tasks@.len() as usize)
                },
                Err(err) => plan_error(plan@, err),
            },
    {
        let fabric = build_fabric(plan)?;
        let tasks = task_plan(plan.len(), prefetch);
        let join = JoinState::new(tasks.len());
        Ok(ComputeExecutor { fabric, tasks, join })
    }
}

} // verus!
