use vstd::prelude::*;
use crate::errors::{AllocationError, ProjectCreationErrors};
use crate::ids::fresh_id;
use crate::resource::EngagementRate;
use crate::time_window::instant_in_range;

verus! {

/// Where a task stands in its life.
#[derive(Clone, Copy, Debug, PartialEq, Eq, Structural)]
pub enum TaskStatus {
    New,
    Wait,
    Processed,
    Complete,
    Rejected,
    Closed,
}

/// Whether a dependency blocks the dependent task.
#[derive(Clone, Copy, Debug, PartialEq, Eq, Structural)]
pub enum DependencyType {
    Blocking,
    NonBlocking,
}

/// Where a task stands in the dependency graph: a root has only
/// successors, a base only predecessors, a node both, an isolated task
/// neither.
#[derive(Clone, Copy, Debug, PartialEq, Eq, Structural)]
pub enum DependencyNodeType {
    Root,
    Base,
    Node,
    Isolated,
}

/// The share of one resource committed to one task.
#[derive(Clone, Copy, Debug, PartialEq, Eq, Structural)]
pub struct ResourceOnTask {
    pub resource: u64,
    pub engagement_rate: EngagementRate,
}

impl ResourceOnTask {
    /// Ties a resource to a task at the given engagement, in thousandths
    /// of full capacity; rejects engagements beyond full capacity.
    pub fn new(id: u64, rate: u32) -> (r: Result<ResourceOnTask, AllocationError>)
        ensures
            r is Ok <==> rate <= crate::resource::FULL_ENGAGEMENT,
            r matches Ok(rot) ==> rot == (ResourceOnTask {
                resource: id,
                engagement_rate: EngagementRate { permille: rate },
            }),
            r is Err ==> r == Result::<ResourceOnTask, AllocationError>::Err(
                AllocationError::InvalidRate,
            ),
    {
        let engagement_rate = match EngagementRate::new(rate) {
            Ok(e) => e,
            Err(e) => {
                return Err(e);
            },
        };
        Ok(ResourceOnTask { resource: id, engagement_rate })
    }
}

/// A list of task identifiers that is present and non-empty.
pub open spec fn spec_some_tasks(o: Option<Vec<u64>>) -> bool {
    o matches Some(v) && v@.len() > 0
}

/// The identifiers a link list holds, an empty sequence when absent.
pub open spec fn spec_task_ids(o: Option<Vec<u64>>) -> Seq<u64> {
    match o {
        Some(v) => v@,
        None => Seq::<u64>::empty(),
    }
}

/// The dependency links of one task: which tasks precede and follow it.
#[derive(Clone, Debug)]
pub struct Dependency {
    pub from_task: u64,
    pub to_task: u64,
    pub dependency_type: Option<DependencyType>,
    pub prev_task: Option<Vec<u64>>,
    pub next_task: Option<Vec<u64>>,
}

impl Dependency {
    /// True iff the task has at least one predecessor.
    pub open spec fn spec_has_prev(self) -> bool {
        spec_some_tasks(self.prev_task)
    }

    /// True iff the task has at least one successor.
    pub open spec fn spec_has_next(self) -> bool {
        spec_some_tasks(self.next_task)
    }

    /// Classifies the task by which sides of the graph it touches.
    pub fn get_dependency_type(&self) -> (r: DependencyNodeType)
        ensures
            r == (if !self.spec_has_prev() && self.spec_has_next() {
                DependencyNodeType::Root
            } else if self.spec_has_prev() && !self.spec_has_next() {
                DependencyNodeType::Base
            } else if self.spec_has_prev() && self.spec_has_next() {
                DependencyNodeType::Node
            } else {
                DependencyNodeType::Isolated
            }),
    {
        let has_prev = self.has_prev_tasks();
        let has_next = self.has_next_tasks();
        if !has_prev && has_next {
            DependencyNodeType::Root
        } else if has_prev && !has_next {
            DependencyNodeType::Base
        } else if has_prev && has_next {
            DependencyNodeType::Node
        } else {
            DependencyNodeType::Isolated
        }
    }

    /// Records one more predecessor.
    pub fn add_prev_task(&mut self, task_id: u64)
        ensures
            spec_task_ids(final(self).prev_task) == spec_task_ids(old(self).prev_task).push(
                task_id,
            ),
            final(self).spec_has_prev(),
            final(self).next_task == old(self).next_task,
            final(self).from_task == old(self).from_task,
            final(self).to_task == old(self).to_task,
            final(self).dependency_type == old(self).dependency_type,
    {
        match &mut self.prev_task {
            Some(v) => {
                v.push(task_id);
            },
            None => {
                proof {
                    assert(spec_task_ids(old(self).prev_task) =~= Seq::<u64>::empty());
                }
                self.prev_task = Some(vec![task_id]);
                proof {
                    assert(spec_task_ids(self.prev_task) =~= Seq::<u64>::empty().push(task_id));
                }
            },
        }
    }

    /// Records one more successor.
    pub fn add_next_task(&mut self, task_id: u64)
        ensures
            spec_task_ids(final(self).next_task) == spec_task_ids(old(self).next_task).push(
                task_id,
            ),
            final(self).spec_has_next(),
            final(self).prev_task == old(self).prev_task,
            final(self).from_task == old(self).from_task,
            final(self).to_task == old(self).to_task,
            final(self).dependency_type == old(self).dependency_type,
    {
        match &mut self.next_task {
            Some(v) => {
                v.push(task_id);
            },
            None => {
                proof {
                    assert(spec_task_ids(old(self).next_task) =~= Seq::<u64>::empty());
                }
                self.next_task = Some(vec![task_id]);
                proof {
                    assert(spec_task_ids(self.next_task) =~= Seq::<u64>::empty().push(task_id));
                }
            },
        }
    }

    /// The predecessors, if there are any.
    pub fn prev_tasks(&self) -> (r: Option<&Vec<u64>>)
        ensures
            r is Some <==> self.spec_has_prev(),
            r matches Some(v) ==> v@ == spec_task_ids(self.prev_task),
    {
        match &self.prev_task {
            Some(v) => {
                if v.len() > 0 {
                    Some(v)
                } else {
                    None
                }
            },
            None => None,
        }
    }

    /// The successors, if there are any.
    pub fn next_tasks(&self) -> (r: Option<&Vec<u64>>)
        ensures
            r is Some <==> self.spec_has_next(),
            r matches Some(v) ==> v@ == spec_task_ids(self.next_task),
    {
        match &self.next_task {
            Some(v) => {
                if v.len() > 0 {
                    Some(v)
                } else {
                    None
                }
            },
            None => None,
        }
    }

    /// True iff the task has at least one predecessor.
    pub fn has_prev_tasks(&self) -> (r: bool)
        ensures
            r == self.spec_has_prev(),
    {
        self.prev_tasks().is_some()
    }

    /// True iff the task has at least one successor.
    pub fn has_next_tasks(&self) -> (r: bool)
        ensures
            r == self.spec_has_next(),
    {
        self.next_tasks().is_some()
    }

    /// Turns an empty link list into an absent one.
    fn normalize(&mut self)
        ensures
            final(self).spec_has_prev() == old(self).spec_has_prev(),
            final(self).spec_has_next() == old(self).spec_has_next(),
            old(self).spec_has_prev() ==> final(self).prev_task == old(self).prev_task,
            !old(self).spec_has_prev() ==> final(self).prev_task is None,
            old(self).spec_has_next() ==> final(self).next_task == old(self).next_task,
            !old(self).spec_has_next() ==> final(self).next_task is None,
            final(self).from_task == old(self).from_task,
            final(self).to_task == old(self).to_task,
            final(self).dependency_type == old(self).dependency_type,
    {
        let clear_prev = match &self.prev_task {
            Some(v) => v.len() == 0,
            None => false,
        };
        if clear_prev {
            self.prev_task = None;
        }
        let clear_next = match &self.next_task {
            Some(v) => v.len() == 0,
            None => false,
        };
        if clear_next {
            self.next_task = None;
        }
    }

    /// Repairs the structure after it arrives from outside: empty link
    /// lists become absent ones.
    pub fn sanitaze(&mut self)
        ensures
            final(self).spec_has_prev() == old(self).spec_has_prev(),
            final(self).spec_has_next() == old(self).spec_has_next(),
            old(self).spec_has_prev() ==> final(self).prev_task == old(self).prev_task,
            !old(self).spec_has_prev() ==> final(self).prev_task is None,
            old(self).spec_has_next() ==> final(self).next_task == old(self).next_task,
            !old(self).spec_has_next() ==> final(self).next_task is None,
            final(self).from_task == old(self).from_task,
            final(self).to_task == old(self).to_task,
            final(self).dependency_type == old(self).dependency_type,
    {
        self.normalize();
    }
}

impl Default for Dependency {
    /// A task with no links at all.
    fn default() -> (r: Dependency)
        ensures
            r.from_task == 0,
            r.to_task == 0,
            r.dependency_type is None,
            r.prev_task is None,
            r.next_task is None,
    {
        Dependency {
            from_task: 0,
            to_task: 0,
            dependency_type: None,
            prev_task: None,
            next_task: None,
        }
    }
}

/// One unit of work in a project, spanning a time range and carrying its
/// committed resources and dependency links.
#[derive(Clone, Debug)]
pub struct Task {
    /// Stable identifier, drawn at creation.
    pub id: u64,
    pub name: String,
    pub date_start: i64,
    pub date_end: i64,
    /// Length of the span in seconds.
    pub duration: i64,
    pub status: TaskStatus,
    pub resources: Vec<ResourceOnTask>,
    pub dependency: Dependency,
}

impl Task {
    /// A well-formed task spans a non-empty range of in-range instants,
    /// and its recorded duration is that range's length.
    pub open spec fn wf(self) -> bool {
        &&& instant_in_range(self.date_start)
        &&& instant_in_range(self.date_end)
        &&& self.date_start < self.date_end
        &&& self.duration == self.date_end - self.date_start
    }

    /// Builds a task with a fresh identifier, rejecting exactly the empty
    /// and reversed spans.
    pub fn new(
        name: String,
        date_start: i64,
        date_end: i64,
        dependencies: Option<Dependency>,
        resources: Option<Vec<ResourceOnTask>>,
    ) -> (r: Result<Task, ProjectCreationErrors>)
        requires
            date_start < date_end ==> instant_in_range(date_start) && instant_in_range(date_end),
        ensures
            r is Ok <==> date_start < date_end,
            r is Err ==> r == Result::<Task, ProjectCreationErrors>::Err(
                ProjectCreationErrors::InvalidTaskDuration { date_start, date_end },
            ),
            r matches Ok(t) ==> {
                &&& t.wf()
                &&& t.name@ == name@
                &&& t.date_start == date_start
                &&& t.date_end == date_end
                &&& t.duration == date_end - date_start
                &&& t.status == TaskStatus::New
                &&& t.resources@ == (match resources {
                    Some(v) => v@,
                    None => Seq::<ResourceOnTask>::empty(),
                })
                &&& (dependencies matches Some(d) ==> t.dependency == d)
                &&& (dependencies is None ==> t.dependency.prev_task is None
                    && t.dependency.next_task is None && t.dependency.dependency_type is None)
            },
    {
        if date_start >= date_end {
            return Err(ProjectCreationErrors::InvalidTaskDuration { date_start, date_end });
        }

        let dependency = match dependencies {
            Some(d) => d,
            None => Dependency::default(),
        };
        let task_resources = match resources {
            Some(v) => v,
            None => Vec::new(),
        };
        Ok(
            Task {
                id: fresh_id(),
                name,
                date_start,
                date_end,
                duration: date_end - date_start,
                status: TaskStatus::New,
                resources: task_resources,
                dependency,
            },
        )
    }

    /// The task's identifier.
    pub fn get_id(&self) -> (r: u64)
        ensures
            r == self.id,
    {
        self.id
    }

    /// First instant of the task's span.
    pub fn get_date_start(&self) -> (r: i64)
        ensures
            r == self.date_start,
    {
        self.date_start
    }

    /// First instant after the task's span.
    pub fn get_date_end(&self) -> (r: i64)
        ensures
            r == self.date_end,
    {
        self.date_end
    }

    /// Length of the task's span in seconds.
    pub fn get_duration(&self) -> (r: i64)
        ensures
            r == self.duration,
    {
        self.duration
    }

    /// Records one more predecessor.
    pub fn add_prev_task(&mut self, task_id: u64)
        ensures
            spec_task_ids(final(self).dependency.prev_task) == spec_task_ids(
                old(self).dependency.prev_task,
            ).push(task_id),
            final(self).dependency.spec_has_prev(),
            final(self).dependency.next_task == old(self).dependency.next_task,
            final(self).id == old(self).id,
            final(self).name@ == old(self).name@,
            final(self).date_start == old(self).date_start,
            final(self).date_end == old(self).date_end,
            final(self).duration == old(self).duration,
            final(self).status == old(self).status,
            final(self).resources@ == old(self).resources@,
    {
        self.dependency.add_prev_task(task_id);
    }

    /// Records one more successor.
    pub fn add_next_task(&mut self, task_id: u64)
        ensures
            spec_task_ids(final(self).dependency.next_task) == spec_task_ids(
                old(self).dependency.next_task,
            ).push(task_id),
            final(self).dependency.spec_has_next(),
            final(self).dependency.prev_task == old(self).dependency.prev_task,
            final(self).id == old(self).id,
            final(self).name@ == old(self).name@,
            final(self).date_start == old(self).date_start,
            final(self).date_end == old(self).date_end,
            final(self).duration == old(self).duration,
            final(self).status == old(self).status,
            final(self).resources@ == old(self).resources@,
    {
        self.dependency.add_next_task(task_id);
    }
}

/// True iff the two tasks agree on every field, identifier included.
pub open spec fn spec_same_task(a: Task, b: Task) -> bool {
    &&& a.id == b.id
    &&& a.name@ == b.name@
    &&& a.date_start == b.date_start
    &&& a.date_end == b.date_end
    &&& a.duration == b.duration
    &&& a.status == b.status
    &&& a.resources@ == b.resources@
    &&& a.dependency.from_task == b.dependency.from_task
    &&& a.dependency.to_task == b.dependency.to_task
    &&& a.dependency.dependency_type == b.dependency.dependency_type
    &&& spec_task_ids(a.dependency.prev_task) == spec_task_ids(b.dependency.prev_task)
    &&& a.dependency.spec_has_prev() == b.dependency.spec_has_prev()
    &&& spec_task_ids(a.dependency.next_task) == spec_task_ids(b.dependency.next_task)
    &&& a.dependency.spec_has_next() == b.dependency.spec_has_next()
}

/// An exact copy of the task, field for field.
pub(crate) fn copy_task(task: &Task) -> (r: Task)
    ensures
        spec_same_task(r, *task),
        task.wf() ==> r.wf(),
{
    Task {
        id: task.id,
        name: copy_string(&task.name),
        date_start: task.date_start,
        date_end: task.date_end,
        duration: task.duration,
        status: task.status,
        resources: copy_resources(&task.resources),
        dependency: Dependency {
            from_task: task.dependency.from_task,
            to_task: task.dependency.to_task,
            dependency_type: task.dependency.dependency_type,
            prev_task: copy_ids(&task.dependency.prev_task),
            next_task: copy_ids(&task.dependency.next_task),
        },
    }
}

/// An exact copy of a string.
fn copy_string(s: &String) -> (r: String)
    ensures
        r@ == s@,
{
    s.clone()
}

/// An exact copy of a resource share list.
fn copy_resources(v: &Vec<ResourceOnTask>) -> (r: Vec<ResourceOnTask>)
    ensures
        r@ == v@,
{
    let n = v.len();
    let mut r: Vec<ResourceOnTask> = Vec::new();
    let mut i: usize = 0;
    while i < n
        invariant
            n == v@.len(),
            i <= n,
            r@ == v@.subrange(0, i as int),
        decreases n - i,
    {
        r.push(v[i]);
        proof {
            assert(r@ =~= v@.subrange(0, i + 1));
        }
        i = i + 1;
    }
    proof {
        assert(v@.subrange(0, n as int) =~= v@);
    }
    r
}

/// An exact copy of an optional identifier list.
fn copy_ids(o: &Option<Vec<u64>>) -> (r: Option<Vec<u64>>)
    ensures
        r is Some <==> *o is Some,
        r matches Some(rv) ==> (o matches Some(ov) && rv@ == ov@),
{
    match o {
        Some(v) => {
            let n = v.len();
            let mut r: Vec<u64> = Vec::new();
            let mut i: usize = 0;
            while i < n
                invariant
                    n == v@.len(),
                    i <= n,
                    r@ == v@.subrange(0, i as int),
                decreases n - i,
            {
                r.push(v[i]);
                proof {
                    assert(r@ =~= v@.subrange(0, i + 1));
                }
                i = i + 1;
            }
            proof {
                assert(v@.subrange(0, n as int) =~= v@);
            }
            Some(r)
        },
        None => None,
    }
}

} // verus!
