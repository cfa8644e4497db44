use vstd::prelude::*;

verus! {

/// Failure kinds of the allocation engine.  Every fallible operation reports
/// one of these; all are local, synchronous and recoverable by the caller.
#[derive(Clone, Copy, Debug, PartialEq, Eq, Structural)]
pub enum AllocationError {
    /// A time window was requested whose start does not precede its end.
    InvalidRange,
    /// A rate was requested that is not positive, or an engagement rate
    /// beyond full engagement.
    InvalidRate,
    /// The named resource is not in the pool.
    ResourceNotFound,
    /// The resource's calendar or exception periods rule out the window.
    ResourceUnavailable,
    /// Accepting the request would push the resource past full capacity.
    OverCommitted,
    /// The named allocation is not in the pool.
    AllocationNotFound,
}

/// Failure kinds of task and project construction.
#[derive(Clone, Copy, Debug, PartialEq, Eq, Structural)]
pub enum ProjectCreationErrors {
    /// A task's start date does not precede its end date.
    InvalidTaskDuration { date_start: i64, date_end: i64 },
    /// An unspecified customisation failure.
    Unknown,
}

/// Failure kinds of the service layer that orchestrates calendar lookup and
/// pool mutation on behalf of a project container.
#[derive(Clone, Copy, Debug, PartialEq, Eq, Structural)]
pub enum ServiceError {
    /// The named project is not in the container.
    ProjectNotFound,
    /// The named task is not in the project.
    TaskNotFound,
    /// The task's dates fall outside the project's dates.
    TaskDatesOutsideProject,
    /// No calendar is known for the named project.
    CalendarNotFound,
    /// The named resource is not in the pool.
    ResourceNotFound,
    /// The container already holds its one project.
    ContainerOccupied,
    /// Task construction failed.
    Creation(ProjectCreationErrors),
    /// The pool rejected the request.
    Pool(AllocationError),
}

} // verus!
