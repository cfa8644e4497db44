use vstd::prelude::*;
use crate::errors::{AllocationError, ServiceError};
use crate::project::{spec_first_task_at, spec_has_task, Project};
use crate::project_containers::SingleProjectContainer;
use crate::resource::EngagementRate;
use crate::resource_pool::{
    spec_has_resource, spec_insert_alloc, spec_resource_of, AllocationRequest, ResourceAllocation,
};
use crate::tasks::{copy_task, spec_same_task, Task, TaskStatus};
use crate::time_window::TimeWindow;

verus! {

/// The window an allocation request covers: the one the caller gave, or
/// the task's whole span when none was given.
pub open spec fn spec_requested_window(task: Task, time_window: Option<TimeWindow>) -> TimeWindow {
    match time_window {
        Some(w) => w,
        None => TimeWindow { date_start: task.date_start, date_end: task.date_end },
    }
}

/// The request the service submits to the pool on the caller's behalf.
pub open spec fn spec_built_request(
    project_id: u64,
    task_id: u64,
    resource_id: u64,
    engagement: EngagementRate,
    w: TimeWindow,
) -> AllocationRequest {
    AllocationRequest { resource_id, task_id, project_id, engagement_rate: engagement,
    time_window: w }
}

/// The service face of task management: creating tasks inside a hosted
/// project and committing resources to them through the pool.
pub struct TaskService {}

impl TaskService {
    /// The hosted project, if its identifier matches.
    pub fn get_project<'a>(container: &'a SingleProjectContainer, project_id: &u64) -> (r: Option<
        &'a Project,
    >)
        ensures
            r is Some <==> container.spec_has_project(*project_id),
            r matches Some(p) ==> *p == container.project@[0],
    {
        container.get_project(project_id)
    }

    /// Creates a task inside the hosted project: the task's dates must
    /// fall within the project's dates and span a non-empty range.  On
    /// success the task is stored in the project and returned.
    pub fn create_task(
        container: &mut SingleProjectContainer,
        project_id: u64,
        name: String,
        start: i64,
        end: i64,
    ) -> (r: Result<Task, ServiceError>)
        requires
            old(container).wf(),
        ensures
            final(container).wf(),
            final(container).resource_pool == old(container).resource_pool,
            r == Result::<Task, ServiceError>::Err(ServiceError::ProjectNotFound) <==> !old(
                container,
            ).spec_has_project(project_id),
            r == Result::<Task, ServiceError>::Err(ServiceError::TaskDatesOutsideProject)
                <==> old(container).spec_has_project(project_id) && (start < old(
                container,
            ).project@[0].date_start || end > old(container).project@[0].date_end),
            r == Result::<Task, ServiceError>::Err(
                ServiceError::Creation(
                    crate::errors::ProjectCreationErrors::InvalidTaskDuration {
                        date_start: start,
                        date_end: end,
                    },
                ),
            ) <==> old(container).spec_has_project(project_id) && start >= old(
                container,
            ).project@[0].date_start && end <= old(container).project@[0].date_end && start >= end,
            r is Ok <==> old(container).spec_has_project(project_id) && start >= old(
                container,
            ).project@[0].date_start && end <= old(container).project@[0].date_end && start < end,
            r is Err ==> *final(container) == *old(container),
            r matches Ok(t) ==> {
                &&& t.wf()
                &&& t.name@ == name@
                &&& t.date_start == start
                &&& t.date_end == end
                &&& t.duration == end - start
                &&& t.status == TaskStatus::New
                &&& t.resources@.len() == 0
                &&& final(container).project@.len() == 1
                &&& final(container).project@[0].tasks@.len() == old(
                    container,
                ).project@[0].tasks@.len() + 1
                &&& forall|i: int|
                    0 <= i < old(container).project@[0].tasks@.len() ==> final(container).project@[0].tasks@[i] == old(container).project@[0].tasks@[i]
                &&& spec_same_task(
                    final(container).project@[0].tasks@[final(container).project@[0].tasks@.len()
                        - 1],
                    t,
                )
                &&& final(container).project@[0].id == old(container).project@[0].id
                &&& final(container).project@[0].calendar == old(container).project@[0].calendar
                &&& final(container).project@[0].resources@ == old(
                    container,
                ).project@[0].resources@
            },
    {
        let (p_start, p_end) = match container.get_project(&project_id) {
            Some(p) => (p.get_date_start(), p.get_date_end()),
            None => {
                return Err(ServiceError::ProjectNotFound);
            },
        };

        if start < p_start || end > p_end {
            return Err(ServiceError::TaskDatesOutsideProject);
        }

        let task = match Task::new(name, start, end, None, None) {
            Ok(t) => t,
            Err(e) => {
                return Err(ServiceError::Creation(e));
            },
        };

        let stored = copy_task(&task);
        let found = container.push_task(&project_id, stored);
        proof {
            assert(found);
        }
        Ok(task)
    }

    /// The hosted project's tasks, or nothing when the identifier names
    /// no hosted project.
    pub fn get_tasks<'a>(container: &'a SingleProjectContainer, project_id: &u64) -> (r: Vec<
        &'a Task,
    >)
        ensures
            container.spec_has_project(*project_id) ==> r@.len()
                == container.project@[0].tasks@.len() && forall|i: int|
                0 <= i < r@.len() ==> *(#[trigger] r@[i]) == container.project@[0].tasks@[i],
            !container.spec_has_project(*project_id) ==> r@.len() == 0,
    {
        match container.get_project(project_id) {
            Some(p) => p.get_project_tasks(),
            None => Vec::new(),
        }
    }

    /// Commits a resource to a task: builds an allocation request over the
    /// given window (or the task's whole span) and submits it to the
    /// pool under the project's calendar.  The pool's verdict is passed
    /// through unchanged.
    pub fn allocate_resource(
        container: &mut SingleProjectContainer,
        project_id: u64,
        task_id: u64,
        resource_id: u64,
        engagement: EngagementRate,
        time_window: Option<TimeWindow>,
    ) -> (r: Result<(), ServiceError>)
        requires
            old(container).wf(),
            engagement.wf(),
            time_window matches Some(w) ==> w.wf(),
        ensures
            final(container).wf(),
            final(container).project == old(container).project,
            final(container).resource_pool.resources@ == old(container).resource_pool.resources@,
            r == Result::<(), ServiceError>::Err(ServiceError::ProjectNotFound) <==> !old(
                container,
            ).spec_has_project(project_id),
            r == Result::<(), ServiceError>::Err(ServiceError::TaskNotFound) <==> old(
                container,
            ).spec_has_project(project_id) && !spec_has_task(
                old(container).project@[0].tasks@,
                task_id,
            ),
            r is Err ==> final(container).resource_pool == old(container).resource_pool,
            old(container).spec_has_project(project_id) && spec_has_task(
                old(container).project@[0].tasks@,
                task_id,
            ) ==> exists|ti: int|
                #[trigger] spec_first_task_at(old(container).project@[0].tasks@, task_id, ti) && {
                let request = spec_built_request(
                    project_id,
                    task_id,
                    resource_id,
                    engagement,
                    spec_requested_window(
                        old(container).project@[0].tasks@[ti],
                        time_window,
                    ),
                );
                let calendar = old(container).project@[0].calendar;
                &&& (r is Ok <==> old(container).resource_pool.spec_accepts(request, calendar))
                &&& (r == Result::<(), ServiceError>::Err(
                    ServiceError::Pool(AllocationError::ResourceNotFound),
                ) <==> !spec_has_resource(old(container).resource_pool.resources@, resource_id))
                &&& (r == Result::<(), ServiceError>::Err(
                    ServiceError::Pool(AllocationError::ResourceUnavailable),
                ) <==> spec_has_resource(old(container).resource_pool.resources@, resource_id)
                    && !spec_resource_of(
                    old(container).resource_pool.resources@,
                    resource_id,
                ).spec_is_available(request.time_window, calendar))
                &&& (r is Ok ==> exists|id: u64|
                    final(container).resource_pool.allocations@ == spec_insert_alloc(
                        old(container).resource_pool.allocations@,
                        ResourceAllocation {
                            id,
                            resource_id,
                            task_id,
                            project_id,
                            engagement_rate: engagement,
                            time_window: request.time_window,
                        },
                    ))
            },
    {
        let (task_start, task_end) = {
            let project = match container.get_project(&project_id) {
                Some(p) => p,
                None => {
                    return Err(ServiceError::ProjectNotFound);
                },
            };
            let task = match project.find_task(&task_id) {
                Some(t) => t,
                None => {
                    return Err(ServiceError::TaskNotFound);
                },
            };
            (task.get_date_start(), task.get_date_end())
        };
        proof {
            let tasks = container.project@[0].tasks@;
            let j = choose|i: int| #[trigger] spec_first_task_at(tasks, task_id, i) && (task_start
                == tasks[i].date_start && task_end == tasks[i].date_end);
            assert(tasks[j].wf());
        }

        let allocation_time_window = match time_window {
            Some(tw) => tw,
            None => match TimeWindow::new(task_start, task_end) {
                Ok(w) => w,
                Err(_) => {
                    // The task is well-formed, so its own span is a valid
                    // window and this branch cannot be reached.
                    proof {
                        assert(false);
                    }
                    return Err(ServiceError::TaskNotFound);
                },
            },
        };

        let allocation_request = AllocationRequest::new(
            resource_id,
            task_id,
            project_id,
            engagement,
            allocation_time_window,
        );

        let calendar = &container.project[0].calendar;
        match container.resource_pool.allocate(allocation_request, calendar) {
            Ok(()) => Ok(()),
            Err(e) => Err(ServiceError::Pool(e)),
        }
    }
}

} // verus!
