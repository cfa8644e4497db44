use vstd::prelude::*;
use crate::errors::ServiceError;
use crate::project::Project;
use crate::project_calendar::ProjectCalendar;
use crate::resource_pool::LocalResourcePool;
use crate::tasks::Task;

verus! {

/// A container that hosts at most one project, together with the resource
/// pool and the calendar lookup that the service layer works through.
pub struct SingleProjectContainer {
    /// The hosted project; empty or a single entry.
    pub project: Vec<Project>,
    /// The pool that owns the container's resources and allocations.
    pub resource_pool: LocalResourcePool,
}

impl SingleProjectContainer {
    /// A well-formed container hosts at most one project, a well-formed
    /// one, over a well-formed pool.
    pub open spec fn wf(self) -> bool {
        &&& self.project@.len() <= 1
        &&& forall|i: int| 0 <= i < self.project@.len() ==> (#[trigger] self.project@[i]).wf()
        &&& self.resource_pool.wf()
    }

    /// True iff the container hosts a project under the identifier.
    pub open spec fn spec_has_project(self, project_id: u64) -> bool {
        self.project@.len() == 1 && self.project@[0].id == project_id
    }

    /// An empty container: no project, an empty pool.
    pub fn new() -> (r: SingleProjectContainer)
        ensures
            r.wf(),
            r.project@.len() == 0,
            r.resource_pool.resources@ =~= Seq::<crate::resource::Resource>::empty(),
            r.resource_pool.allocations@ =~= Seq::<
                crate::resource_pool::ResourceAllocation,
            >::empty(),
    {
        SingleProjectContainer { project: Vec::new(), resource_pool: LocalResourcePool::default() }
    }

    /// Hosts the project; fails if the container already hosts one.
    pub fn add_project(&mut self, project: Project) -> (r: Result<(), ServiceError>)
        requires
            old(self).wf(),
            project.wf(),
        ensures
            final(self).wf(),
            final(self).resource_pool == old(self).resource_pool,
            r is Ok <==> old(self).project@.len() == 0,
            r is Err ==> *final(self) == *old(self) && r == Result::<(), ServiceError>::Err(
                ServiceError::ContainerOccupied,
            ),
            r is Ok ==> final(self).project@ == old(self).project@.push(project),
    {
        if self.project.len() == 0 {
            self.project.push(project);
            Ok(())
        } else {
            Err(ServiceError::ContainerOccupied)
        }
    }

    /// The hosted project, if its identifier matches.
    pub fn get_project(&self, id: &u64) -> (r: Option<&Project>)
        ensures
            r is Some <==> self.spec_has_project(*id),
            r matches Some(p) ==> *p == self.project@[0],
    {
        if self.project.len() == 1 {
            let p = &self.project[0];
            if p.id == *id {
                return Some(p);
            }
        }
        None
    }

    /// Shared access to the resource pool.
    pub fn resource_pool(&self) -> (r: &LocalResourcePool)
        ensures
            *r == self.resource_pool,
    {
        &self.resource_pool
    }

    /// Exclusive access to the resource pool; the project is untouched by
    /// whatever the caller does through it.
    pub fn resource_pool_mut(&mut self) -> (r: &mut LocalResourcePool)
        ensures
            *r == old(self).resource_pool,
            final(self).project == old(self).project,
            final(self).resource_pool == *final(r),
    {
        &mut self.resource_pool
    }

    /// The calendar of the hosted project, if its identifier matches.
    pub fn calendar(&self, project_id: &u64) -> (r: Option<&ProjectCalendar>)
        ensures
            r is Some <==> self.spec_has_project(*project_id),
            r matches Some(c) ==> *c == self.project@[0].calendar,
    {
        if self.project.len() == 1 {
            let p = &self.project[0];
            if p.id == *project_id {
                return Some(&p.calendar);
            }
        }
        None
    }

    /// Stores the task in the hosted project under the identifier;
    /// reports whether that project exists.  The task's dates are the
    /// caller's concern.
    pub(crate) fn push_task(&mut self, project_id: &u64, task: Task) -> (found: bool)
        requires
            old(self).wf(),
            task.wf(),
        ensures
            final(self).wf(),
            final(self).resource_pool == old(self).resource_pool,
            found <==> old(self).spec_has_project(*project_id),
            !found ==> *final(self) == *old(self),
            found ==> {
                &&& final(self).project@.len() == 1
                &&& final(self).project@[0].tasks@ == old(self).project@[0].tasks@.push(task)
                &&& final(self).project@[0].id == old(self).project@[0].id
                &&& final(self).project@[0].name@ == old(self).project@[0].name@
                &&& final(self).project@[0].date_start == old(self).project@[0].date_start
                &&& final(self).project@[0].date_end == old(self).project@[0].date_end
                &&& final(self).project@[0].duration == old(self).project@[0].duration
                &&& final(self).project@[0].calendar == old(self).project@[0].calendar
                &&& final(self).project@[0].resources@ == old(self).project@[0].resources@
            },
    {
        if self.project.len() == 1 {
            if self.project[0].id == *project_id {
                let mut p = self.project.remove(0);
                p.tasks.push(task);
                let ghost newp = p;
                self.project.insert(0, p);
                proof {
                    assert(self.project@ =~= old(self).project@.update(0, newp));
                }
                return true;
            }
        }
        false
    }
}

} // verus!
