use vstd::prelude::*;
use vstd::pervasive::VecAdditionalExecFns;
use crate::errors::{AllocationError, ServiceError};
use crate::ids::fresh_id;
use crate::project_calendar::ProjectCalendar;
use crate::resource::Resource;
use crate::tasks::{ResourceOnTask, Task};
use crate::time_window::instant_in_range;

verus! {

/// True iff some task in the list carries the identifier.
pub open spec fn spec_has_task(s: Seq<Task>, task_id: u64) -> bool {
    exists|i: int| 0 <= i < s.len() && (#[trigger] s[i]).id == task_id
}

/// True iff `i` is the first position at which the identifier occurs.
pub open spec fn spec_first_task_at(s: Seq<Task>, task_id: u64, i: int) -> bool {
    &&& 0 <= i < s.len()
    &&& s[i].id == task_id
    &&& forall|j: int| 0 <= j < i ==> (#[trigger] s[j]).id != task_id
}

/// True iff `after` is `before` with one more resource share recorded:
/// every other field is kept.
pub open spec fn spec_with_resource_on(before: Task, after: Task, share: ResourceOnTask) -> bool {
    &&& after.id == before.id
    &&& after.name@ == before.name@
    &&& after.date_start == before.date_start
    &&& after.date_end == before.date_end
    &&& after.duration == before.duration
    &&& after.status == before.status
    &&& after.resources@ == before.resources@.push(share)
    &&& after.dependency == before.dependency
}

/// One project: its dates, its calendar, and the tasks and resources it
/// stores.  Capacity decisions are not made here but in the resource pool.
#[derive(Debug)]
pub struct Project {
    /// Stable identifier, drawn at creation.
    pub id: u64,
    pub name: String,
    pub description: String,
    pub date_start: i64,
    pub date_end: i64,
    /// Length of the project span in seconds.
    pub duration: i64,
    /// The project's working calendar.
    pub calendar: ProjectCalendar,
    pub resources: Vec<Resource>,
    pub tasks: Vec<Task>,
}

impl Project {
    /// A well-formed project spans a non-empty range of in-range instants,
    /// records that range's length, and holds a well-formed calendar and
    /// well-formed tasks.
    pub open spec fn wf(self) -> bool {
        &&& instant_in_range(self.date_start)
        &&& instant_in_range(self.date_end)
        &&& self.date_start < self.date_end
        &&& self.duration == self.date_end - self.date_start
        &&& self.calendar.wf()
        &&& forall|i: int| 0 <= i < self.tasks@.len() ==> (#[trigger] self.tasks@[i]).wf()
    }

    /// Builds a project with a fresh identifier and the default calendar,
    /// rejecting exactly the empty and reversed spans.
    pub fn new(name: String, description: String, date_start: i64, date_end: i64) -> (r: Result<
        Project,
        AllocationError,
    >)
        requires
            date_start < date_end ==> instant_in_range(date_start) && instant_in_range(date_end),
        ensures
            r is Ok <==> date_start < date_end,
            r is Err ==> r == Result::<Project, AllocationError>::Err(
                AllocationError::InvalidRange,
            ),
            r matches Ok(p) ==> {
                &&& p.wf()
                &&& p.name@ == name@
                &&& p.description@ == description@
                &&& p.date_start == date_start
                &&& p.date_end == date_end
                &&& p.duration == date_end - date_start
                &&& p.calendar.working_days@ =~= seq![true, true, true, true, true, false, false]
                &&& p.calendar.holidays@ =~= Seq::<i64>::empty()
                &&& p.calendar.working_hours_per_day == 8
                &&& p.resources@ =~= Seq::<Resource>::empty()
                &&& p.tasks@ =~= Seq::<Task>::empty()
            },
    {
        if date_start >= date_end {
            return Err(AllocationError::InvalidRange);
        }
        Ok(
            Project {
                id: fresh_id(),
                name,
                description,
                date_start,
                date_end,
                duration: date_end - date_start,
                calendar: ProjectCalendar::default(),
                resources: Vec::new(),
                tasks: Vec::new(),
            },
        )
    }

    /// The project's identifier.
    pub fn get_id(&self) -> (r: u64)
        ensures
            r == self.id,
    {
        self.id
    }

    /// First instant of the project's span.
    pub fn get_date_start(&self) -> (r: i64)
        ensures
            r == self.date_start,
    {
        self.date_start
    }

    /// First instant after the project's span.
    pub fn get_date_end(&self) -> (r: i64)
        ensures
            r == self.date_end,
    {
        self.date_end
    }

    /// Length of the project's span in seconds.
    pub fn get_duration(&self) -> (r: i64)
        ensures
            r == self.duration,
    {
        self.duration
    }

    /// The task spans the project iff it starts no earlier and ends no
    /// later than the project.
    pub open spec fn spec_task_in_range(self, task: Task) -> bool {
        self.date_start <= task.date_start && self.date_end >= task.date_end
    }

    /// True iff the task's dates fall within the project's dates.
    fn check_new_task(&self, task: &Task) -> (r: bool)
        ensures
            r == self.spec_task_in_range(*task),
    {
        self.date_start <= task.date_start && self.date_end >= task.date_end
    }

    /// True iff the project holds a task under the identifier.
    fn validate_task_exist(&self, task_id: &u64) -> (r: bool)
        ensures
            r == spec_has_task(self.tasks@, *task_id),
    {
        self.find_task_index(task_id).is_some()
    }

    /// Index of the first task with the identifier, if any.
    fn find_task_index(&self, task_id: &u64) -> (r: Option<usize>)
        ensures
            match r {
                Some(i) => spec_first_task_at(self.tasks@, *task_id, i as int),
                None => !spec_has_task(self.tasks@, *task_id),
            },
    {
        let n = self.tasks.len();
        let mut i: usize = 0;
        while i < n
            invariant
                n == self.tasks@.len(),
                i <= n,
                forall|j: int| 0 <= j < i ==> (#[trigger] self.tasks@[j]).id != *task_id,
            decreases n - i,
        {
            if self.tasks[i].id == *task_id {
                return Some(i);
            }
            i = i + 1;
        }
        None
    }

    /// The first task under the identifier, if the project holds one.
    pub(crate) fn find_task(&self, task_id: &u64) -> (r: Option<&Task>)
        ensures
            r is Some <==> spec_has_task(self.tasks@, *task_id),
            r matches Some(t) ==> exists|i: int|
                #[trigger] spec_first_task_at(self.tasks@, *task_id, i) && *t == self.tasks@[i],
    {
        match self.find_task_index(task_id) {
            Some(i) => Some(&self.tasks[i]),
            None => None,
        }
    }

    /// Every task a dependency names must already be in the project.
    pub open spec fn spec_deps_exist(self, task: Task) -> bool {
        &&& forall|i: int|
            0 <= i < crate::tasks::spec_task_ids(task.dependency.prev_task).len()
                ==> spec_has_task(
                self.tasks@,
                crate::tasks::spec_task_ids(task.dependency.prev_task)[i],
            )
        &&& forall|i: int|
            0 <= i < crate::tasks::spec_task_ids(task.dependency.next_task).len()
                ==> spec_has_task(
                self.tasks@,
                crate::tasks::spec_task_ids(task.dependency.next_task)[i],
            )
    }

    /// True iff every predecessor and successor the task names is already
    /// in the project.
    fn validate_dependent_tasks_exists(&self, task: &Task) -> (r: bool)
        ensures
            r == self.spec_deps_exist(*task),
    {
        let result_check_prev_tasks = match task.dependency.prev_tasks() {
            Some(ids) => self.all_tasks_exist(ids),
            None => true,
        };
        let result_check_next_tasks = match task.dependency.next_tasks() {
            Some(ids) => self.all_tasks_exist(ids),
            None => true,
        };
        result_check_prev_tasks && result_check_next_tasks
    }

    /// True iff every identifier in the list names a task of the project.
    fn all_tasks_exist(&self, ids: &Vec<u64>) -> (r: bool)
        ensures
            r == forall|i: int| 0 <= i < ids@.len() ==> spec_has_task(self.tasks@, #[trigger] ids@[i]),
    {
        let n = ids.len();
        let mut i: usize = 0;
        while i < n
            invariant
                n == ids@.len(),
                i <= n,
                forall|j: int| 0 <= j < i ==> spec_has_task(self.tasks@, #[trigger] ids@[j]),
            decreases n - i,
        {
            if !self.validate_task_exist(&ids[i]) {
                return false;
            }
            i = i + 1;
        }
        true
    }

    /// Stores the resource under its identifier, replacing any resource
    /// already stored under it.
    pub fn add_resource(&mut self, resource: Resource)
        ensures
            final(self).id == old(self).id,
            final(self).name@ == old(self).name@,
            final(self).description@ == old(self).description@,
            final(self).date_start == old(self).date_start,
            final(self).date_end == old(self).date_end,
            final(self).duration == old(self).duration,
            final(self).calendar == old(self).calendar,
            final(self).tasks@ == old(self).tasks@,
            (exists|i: int|
                0 <= i < old(self).resources@.len() && (#[trigger] old(self).resources@[i]).id
                    == resource.id) ==> exists|i: int|
                0 <= i < old(self).resources@.len() && (#[trigger] old(self).resources@[i]).id
                    == resource.id && final(self).resources@ == old(self).resources@.update(
                    i,
                    resource,
                ),
            (forall|i: int|
                0 <= i < old(self).resources@.len() ==> (#[trigger] old(self).resources@[i]).id
                    != resource.id) ==> final(self).resources@ == old(self).resources@.push(
                resource,
            ),
    {
        let n = self.resources.len();
        let mut i: usize = 0;
        while i < n
            invariant
                n == self.resources@.len(),
                i <= n,
                *self == *old(self),
                forall|j: int| 0 <= j < i ==> (#[trigger] self.resources@[j]).id != resource.id,
            decreases n - i,
        {
            if self.resources[i].id == resource.id {
                self.resources.set(i, resource);
                return ;
            }
            i = i + 1;
        }
        self.resources.push(resource);
    }

    /// Forgets the resource under the identifier; reports whether one was
    /// stored.
    pub fn delete_resource(&mut self, resource_id: &u64) -> (found: bool)
        ensures
            final(self).id == old(self).id,
            final(self).name@ == old(self).name@,
            final(self).description@ == old(self).description@,
            final(self).date_start == old(self).date_start,
            final(self).date_end == old(self).date_end,
            final(self).duration == old(self).duration,
            final(self).calendar == old(self).calendar,
            final(self).tasks@ == old(self).tasks@,
            found <==> exists|i: int|
                0 <= i < old(self).resources@.len() && (#[trigger] old(self).resources@[i]).id
                    == *resource_id,
            !found ==> final(self).resources@ == old(self).resources@,
            found ==> exists|i: int|
                0 <= i < old(self).resources@.len() && (#[trigger] old(self).resources@[i]).id
                    == *resource_id && final(self).resources@ == old(self).resources@.remove(i),
    {
        let n = self.resources.len();
        let mut i: usize = 0;
        while i < n
            invariant
                n == self.resources@.len(),
                i <= n,
                *self == *old(self),
                forall|j: int| 0 <= j < i ==> (#[trigger] self.resources@[j]).id != *resource_id,
            decreases n - i,
        {
            if self.resources[i].id == *resource_id {
                self.resources.remove(i);
                return true;
            }
            i = i + 1;
        }
        false
    }

    /// Stores the task if its dates fall within the project and every task
    /// its dependency names exists; reports whether it was stored.
    pub fn add_task(&mut self, task: Task) -> (added: bool)
        requires
            old(self).wf(),
            task.wf(),
        ensures
            final(self).wf(),
            added == (old(self).spec_task_in_range(task) && old(self).spec_deps_exist(task)),
            added ==> final(self).tasks@ == old(self).tasks@.push(task),
            !added ==> final(self).tasks@ == old(self).tasks@,
            final(self).id == old(self).id,
            final(self).name@ == old(self).name@,
            final(self).description@ == old(self).description@,
            final(self).date_start == old(self).date_start,
            final(self).date_end == old(self).date_end,
            final(self).duration == old(self).duration,
            final(self).calendar == old(self).calendar,
            final(self).resources@ == old(self).resources@,
    {
        if self.check_new_task(&task) && self.validate_dependent_tasks_exists(&task) {
            self.tasks.push(task);
            true
        } else {
            false
        }
    }

    /// Forgets the task under the identifier; reports whether one was
    /// stored.
    pub fn delete_task(&mut self, task_id: &u64) -> (found: bool)
        requires
            old(self).wf(),
        ensures
            final(self).wf(),
            found <==> spec_has_task(old(self).tasks@, *task_id),
            !found ==> final(self).tasks@ == old(self).tasks@,
            found ==> exists|i: int|
                0 <= i < old(self).tasks@.len() && (#[trigger] old(self).tasks@[i]).id == *task_id
                    && final(self).tasks@ == old(self).tasks@.remove(i),
            final(self).id == old(self).id,
            final(self).name@ == old(self).name@,
            final(self).description@ == old(self).description@,
            final(self).date_start == old(self).date_start,
            final(self).date_end == old(self).date_end,
            final(self).duration == old(self).duration,
            final(self).calendar == old(self).calendar,
            final(self).resources@ == old(self).resources@,
    {
        let n = self.tasks.len();
        let mut i: usize = 0;
        while i < n
            invariant
                old(self).wf(),
                n == self.tasks@.len(),
                i <= n,
                *self == *old(self),
                forall|j: int| 0 <= j < i ==> (#[trigger] self.tasks@[j]).id != *task_id,
            decreases n - i,
        {
            if self.tasks[i].id == *task_id {
                self.tasks.remove(i);
                proof {
                    old(self).tasks@.remove_ensures(i as int);
                }
                return true;
            }
            i = i + 1;
        }
        false
    }

    /// Records one more resource share on the task under the identifier.
    pub fn add_resource_on_task(&mut self, added_resource: ResourceOnTask, task_id: u64) -> (r:
        Result<(), ServiceError>)
        requires
            old(self).wf(),
        ensures
            final(self).wf(),
            r is Ok <==> spec_has_task(old(self).tasks@, task_id),
            r is Err ==> *final(self) == *old(self) && r == Result::<(), ServiceError>::Err(
                ServiceError::TaskNotFound,
            ),
            r is Ok ==> exists|i: int|
                {
                    &&& 0 <= i < old(self).tasks@.len()
                    &&& (#[trigger] old(self).tasks@[i]).id == task_id
                    &&& final(self).tasks@.len() == old(self).tasks@.len()
                    &&& spec_with_resource_on(
                        old(self).tasks@[i],
                        final(self).tasks@[i],
                        added_resource,
                    )
                    &&& forall|j: int|
                        0 <= j < old(self).tasks@.len() && j != i ==> final(self).tasks@[j] == old(
                            self,
                        ).tasks@[j]
                },
            r is Ok ==> final(self).resources@ == old(self).resources@ && final(self).calendar
                == old(self).calendar && final(self).id == old(self).id,
    {
        match self.find_task_index(&task_id) {
            Some(i) => {
                let mut task = self.tasks.remove(i);
                task.resources.push(added_resource);
                let ghost newt = task;
                self.tasks.insert(i, task);
                proof {
                    assert(self.tasks@ =~= old(self).tasks@.update(i as int, newt));
                }
                Ok(())
            },
            None => Err(ServiceError::TaskNotFound),
        }
    }

    /// The project's tasks, in storage order.
    pub fn get_project_tasks(&self) -> (r: Vec<&Task>)
        ensures
            r@.len() == self.tasks@.len(),
            forall|i: int| 0 <= i < r@.len() ==> *(#[trigger] r@[i]) == self.tasks@[i],
    {
        let n = self.tasks.len();
        let mut result: Vec<&Task> = Vec::new();
        let mut i: usize = 0;
        while i < n
            invariant
                n == self.tasks@.len(),
                i <= n,
                result@.len() == i,
                forall|j: int| 0 <= j < i ==> *(#[trigger] result@[j]) == self.tasks@[j],
            decreases n - i,
        {
            result.push(&self.tasks[i]);
            i = i + 1;
        }
        result
    }
}

} // verus!
