use vstd::prelude::*;
use vstd::pervasive::VecAdditionalExecFns;
use crate::errors::AllocationError;
use crate::ids::fresh_id;
use crate::project_calendar::ProjectCalendar;
use crate::resource::{EngagementRate, ExceptionPeriod, Resource, FULL_ENGAGEMENT};
use crate::time_window::TimeWindow;

verus! {

/// A proposed assignment of one resource to one task for one time window
/// at a fractional engagement rate.
#[derive(Clone, Copy, Debug)]
pub struct AllocationRequest {
    pub resource_id: u64,
    pub task_id: u64,
    pub project_id: u64,
    pub engagement_rate: EngagementRate,
    pub time_window: TimeWindow,
}

impl AllocationRequest {
    /// A valid request carries a valid engagement rate and a well-formed
    /// window.
    pub open spec fn valid(self) -> bool {
        self.engagement_rate.wf() && self.time_window.wf()
    }

    /// Bundles the pieces of a request.
    pub fn new(
        resource_id: u64,
        task_id: u64,
        project_id: u64,
        engagement_rate: EngagementRate,
        time_window: TimeWindow,
    ) -> (r: AllocationRequest)
        ensures
            r == (AllocationRequest { resource_id, task_id, project_id, engagement_rate,
            time_window }),
    {
        AllocationRequest { resource_id, task_id, project_id, engagement_rate, time_window }
    }
}

/// A committed assignment, created only by the pool on a successful
/// allocation.
#[derive(Clone, Copy, Debug)]
pub struct ResourceAllocation {
    pub id: u64,
    pub resource_id: u64,
    pub task_id: u64,
    pub project_id: u64,
    pub engagement_rate: EngagementRate,
    pub time_window: TimeWindow,
}

impl ResourceAllocation {
    /// A valid allocation carries a valid engagement rate and a well-formed
    /// window.
    pub open spec fn valid(self) -> bool {
        self.engagement_rate.wf() && self.time_window.wf()
    }

    /// Materialises an allocation for the request, under a fresh identifier.
    pub fn new(request: AllocationRequest) -> (r: ResourceAllocation)
        ensures
            r.resource_id == request.resource_id,
            r.task_id == request.task_id,
            r.project_id == request.project_id,
            r.engagement_rate == request.engagement_rate,
            r.time_window == request.time_window,
    {
        ResourceAllocation {
            id: fresh_id(),
            resource_id: request.resource_id,
            task_id: request.task_id,
            project_id: request.project_id,
            engagement_rate: request.engagement_rate,
            time_window: request.time_window,
        }
    }

    /// The allocation's identifier.
    pub fn get_id(&self) -> (r: u64)
        ensures
            r == self.id,
    {
        self.id
    }

    /// The committed engagement rate.
    pub fn get_engagement_rate(&self) -> (r: EngagementRate)
        ensures
            r == self.engagement_rate,
    {
        self.engagement_rate
    }
}

/// What the allocation contributes to the overlap total for resource `rid`
/// over window `w`: its engagement if it is the resource's and its window
/// overlaps `w`, nothing otherwise.
pub open spec fn contrib_overlap(a: ResourceAllocation, rid: u64, w: TimeWindow) -> int {
    if a.resource_id == rid && a.time_window.spec_overlaps(w) {
        a.engagement_rate.permille as int
    } else {
        0
    }
}

/// What the allocation contributes to the load of resource `rid` at
/// instant `t`: its engagement if it is the resource's and its window
/// holds `t`, nothing otherwise.
pub open spec fn contrib_at(a: ResourceAllocation, rid: u64, t: i64) -> int {
    if a.resource_id == rid && a.time_window.spec_contains(t) {
        a.engagement_rate.permille as int
    } else {
        0
    }
}

/// Engagement of resource `rid` summed over the allocations whose windows
/// overlap `w`.
pub open spec fn overlap_sum(s: Seq<ResourceAllocation>, rid: u64, w: TimeWindow) -> int
    decreases s.len(),
{
    if s.len() == 0 {
        0
    } else {
        overlap_sum(s.drop_last(), rid, w) + contrib_overlap(s.last(), rid, w)
    }
}

/// Engagement summed over the allocations (of any resource) whose windows
/// overlap `w`; used on lists already narrowed to one resource.
pub open spec fn overlap_sum_any(s: Seq<ResourceAllocation>, w: TimeWindow) -> int
    decreases s.len(),
{
    if s.len() == 0 {
        0
    } else {
        overlap_sum_any(s.drop_last(), w) + if s.last().time_window.spec_overlaps(w) {
            s.last().engagement_rate.permille as int
        } else {
            0
        }
    }
}

/// Load of resource `rid` at instant `t`: engagement summed over its
/// allocations whose windows hold `t`.
pub open spec fn load_at(s: Seq<ResourceAllocation>, rid: u64, t: i64) -> int
    decreases s.len(),
{
    if s.len() == 0 {
        0
    } else {
        load_at(s.drop_last(), rid, t) + contrib_at(s.last(), rid, t)
    }
}

/// Engagement of resource `rid` summed over all its allocations, whatever
/// their windows.
pub open spec fn total_engagement(s: Seq<ResourceAllocation>, rid: u64) -> int
    decreases s.len(),
{
    if s.len() == 0 {
        0
    } else {
        total_engagement(s.drop_last(), rid) + if s.last().resource_id == rid {
            s.last().engagement_rate.permille as int
        } else {
            0
        }
    }
}

/// Engagement summed over a list of allocations, whatever resource or
/// window; used on lists already narrowed to one resource.
pub open spec fn total_engagement_any(s: Seq<ResourceAllocation>) -> int
    decreases s.len(),
{
    if s.len() == 0 {
        0
    } else {
        total_engagement_any(s.drop_last()) + s.last().engagement_rate.permille as int
    }
}

/// The allocations of resource `rid`, in order.
pub open spec fn allocs_of(s: Seq<ResourceAllocation>, rid: u64) -> Seq<ResourceAllocation>
    decreases s.len(),
{
    if s.len() == 0 {
        Seq::<ResourceAllocation>::empty()
    } else if s.last().resource_id == rid {
        allocs_of(s.drop_last(), rid).push(s.last())
    } else {
        allocs_of(s.drop_last(), rid)
    }
}

/// The load at any instant inside a window is at most the overlap total
/// over that window: an allocation holding the instant overlaps every
/// window that also holds it.
pub proof fn lemma_load_at_le_overlap_sum(
    s: Seq<ResourceAllocation>,
    rid: u64,
    t: i64,
    w: TimeWindow,
)
    requires
        w.spec_contains(t),
    ensures
        load_at(s, rid, t) <= overlap_sum(s, rid, w),
    decreases s.len(),
{
    if s.len() > 0 {
        lemma_load_at_le_overlap_sum(s.drop_last(), rid, t, w);
    }
}

/// Appending an allocation adds exactly its contribution to the load.
pub proof fn lemma_load_at_push(s: Seq<ResourceAllocation>, a: ResourceAllocation, rid: u64, t: i64)
    ensures
        load_at(s.push(a), rid, t) == load_at(s, rid, t) + contrib_at(a, rid, t),
{
    assert(s.push(a).drop_last() =~= s);
}

/// Removing an allocation subtracts exactly its contribution from the load.
pub proof fn lemma_load_at_remove(s: Seq<ResourceAllocation>, i: int, rid: u64, t: i64)
    requires
        0 <= i < s.len(),
    ensures
        load_at(s.remove(i), rid, t) == load_at(s, rid, t) - contrib_at(s[i], rid, t),
    decreases s.len(),
{
    if i == s.len() - 1 {
        assert(s.remove(i) =~= s.drop_last());
    } else {
        assert(s.remove(i).drop_last() =~= s.drop_last().remove(i));
        assert(s.remove(i).last() == s.last());
        lemma_load_at_remove(s.drop_last(), i, rid, t);
    }
}

/// Replacing an allocation swaps its contribution for the new one's.
pub proof fn lemma_load_at_update(
    s: Seq<ResourceAllocation>,
    i: int,
    a: ResourceAllocation,
    rid: u64,
    t: i64,
)
    requires
        0 <= i < s.len(),
    ensures
        load_at(s.update(i, a), rid, t) == load_at(s, rid, t) - contrib_at(s[i], rid, t)
            + contrib_at(a, rid, t),
    decreases s.len(),
{
    if i == s.len() - 1 {
        assert(s.update(i, a).drop_last() =~= s.drop_last());
        assert(s.update(i, a).last() == a);
    } else {
        assert(s.update(i, a).drop_last() =~= s.drop_last().update(i, a));
        assert(s.update(i, a).last() == s.last());
        lemma_load_at_update(s.drop_last(), i, a, rid, t);
    }
}

/// Summing the overlaps over just the resource's allocations equals the
/// resource's overlap total over the whole list.
pub proof fn lemma_overlap_sum_via_allocs_of(s: Seq<ResourceAllocation>, rid: u64, w: TimeWindow)
    ensures
        overlap_sum_any(allocs_of(s, rid), w) == overlap_sum(s, rid, w),
    decreases s.len(),
{
    if s.len() > 0 {
        lemma_overlap_sum_via_allocs_of(s.drop_last(), rid, w);
        if s.last().resource_id == rid {
            let prev = allocs_of(s.drop_last(), rid);
            assert(prev.push(s.last()).drop_last() =~= prev);
        }
    }
}

/// Summing the engagements over just the resource's allocations equals the
/// resource's total engagement over the whole list.
pub proof fn lemma_total_engagement_via_allocs_of(s: Seq<ResourceAllocation>, rid: u64)
    ensures
        total_engagement_any(allocs_of(s, rid)) == total_engagement(s, rid),
    decreases s.len(),
{
    if s.len() > 0 {
        lemma_total_engagement_via_allocs_of(s.drop_last(), rid);
        if s.last().resource_id == rid {
            let prev = allocs_of(s.drop_last(), rid);
            assert(prev.push(s.last()).drop_last() =~= prev);
        }
    }
}


/// A value capped at what a 64-bit counter can hold.
pub open spec fn capped(x: int) -> int {
    if x > u64::MAX as int {
        u64::MAX as int
    } else {
        x
    }
}

/// True iff some resource in the list carries the identifier.
pub open spec fn spec_has_resource(s: Seq<Resource>, rid: u64) -> bool {
    exists|i: int| 0 <= i < s.len() && (#[trigger] s[i]).id == rid
}

/// Index of the resource carrying the identifier (unique in a well-formed
/// pool).
pub open spec fn resource_index(s: Seq<Resource>, rid: u64) -> int {
    choose|i: int| 0 <= i < s.len() && (#[trigger] s[i]).id == rid
}

/// The resource carrying the identifier.
pub open spec fn spec_resource_of(s: Seq<Resource>, rid: u64) -> Resource {
    s[resource_index(s, rid)]
}

/// True iff some allocation in the list carries the identifier.
pub open spec fn spec_has_allocation(s: Seq<ResourceAllocation>, id: u64) -> bool {
    exists|i: int| 0 <= i < s.len() && (#[trigger] s[i]).id == id
}

/// Index of the allocation carrying the identifier (unique in a
/// well-formed pool).
pub open spec fn allocation_index(s: Seq<ResourceAllocation>, id: u64) -> int {
    choose|i: int| 0 <= i < s.len() && (#[trigger] s[i]).id == id
}

/// The list after storing the allocation under its identifier: the entry
/// already carrying that identifier is replaced, otherwise the allocation
/// is appended.
pub open spec fn spec_insert_alloc(
    s: Seq<ResourceAllocation>,
    a: ResourceAllocation,
) -> Seq<ResourceAllocation> {
    if spec_has_allocation(s, a.id) {
        s.update(allocation_index(s, a.id), a)
    } else {
        s.push(a)
    }
}

/// True iff `after` is `before` with `resource` stored under its
/// identifier: the entry already carrying that identifier is replaced,
/// otherwise the resource is appended.
pub open spec fn spec_resources_after_add(
    before: Seq<Resource>,
    after: Seq<Resource>,
    resource: Resource,
) -> bool {
    if spec_has_resource(before, resource.id) {
        exists|i: int|
            0 <= i < before.len() && (#[trigger] before[i]).id == resource.id && after
                == before.update(i, resource)
    } else {
        after == before.push(resource)
    }
}

/// True iff `after` is `before` with one more unavailable span recorded:
/// every other field is kept.
pub open spec fn spec_with_period(before: Resource, after: Resource, e: ExceptionPeriod) -> bool {
    &&& after.id == before.id
    &&& after.name@ == before.name@
    &&& after.rate == before.rate
    &&& after.rate_measure == before.rate_measure
    &&& after.unavailable_periods@ == before.unavailable_periods@.push(e)
}

/// The allocations of one resource, already drawn from the pool, ready for
/// the capacity question.
pub struct AllocationQueryResult {
    pub allocations_list: Vec<ResourceAllocation>,
}

impl AllocationQueryResult {
    /// How many allocations were drawn.
    pub fn len(&self) -> (r: usize)
        ensures
            r == self.allocations_list@.len(),
    {
        self.allocations_list.len()
    }

    /// True iff no allocation was drawn.
    pub fn is_empty(&self) -> (r: bool)
        ensures
            r == (self.allocations_list@.len() == 0),
    {
        self.allocations_list.is_empty()
    }

    /// Decides the capacity question: may the request join these
    /// allocations without pushing the engagement summed over the
    /// overlapping ones past full capacity?
    pub fn check_correct_timewindow(self, allocation_request: &AllocationRequest) -> (r: bool)
        ensures
            r == (overlap_sum_any(self.allocations_list@, allocation_request.time_window)
                + allocation_request.engagement_rate.permille <= FULL_ENGAGEMENT),
    {
        let w = allocation_request.time_window;
        let n = self.allocations_list.len();
        let mut total: u64 = 0;
        let mut i: usize = 0;
        while i < n
            invariant
                n == self.allocations_list@.len(),
                i <= n,
                total == capped(overlap_sum_any(self.allocations_list@.subrange(0, i as int), w)),
                0 <= overlap_sum_any(self.allocations_list@.subrange(0, i as int), w),
            decreases n - i,
        {
            proof {
                let pre = self.allocations_list@.subrange(0, i + 1);
                assert(pre.drop_last() =~= self.allocations_list@.subrange(0, i as int));
                assert(pre.last() == self.allocations_list@[i as int]);
            }
            if self.allocations_list[i].time_window.overlaps(&w) {
                let v = self.allocations_list[i].engagement_rate.value();
                total = match total.checked_add(v as u64) {
                    Some(t) => t,
                    None => u64::MAX,
                };
            }
            i = i + 1;
        }
        proof {
            assert(self.allocations_list@.subrange(0, n as int) =~= self.allocations_list@);
        }
        if total > FULL_ENGAGEMENT as u64 {
            false
        } else {
            total + (allocation_request.engagement_rate.value() as u64) <= FULL_ENGAGEMENT as u64
        }
    }
}

/// The authority over one project's resources and allocations: it accepts
/// or rejects every allocation request, and it alone creates and destroys
/// allocations.
#[derive(Debug)]
pub struct LocalResourcePool {
    pub resources: Vec<Resource>,
    pub allocations: Vec<ResourceAllocation>,
}

impl LocalResourcePool {
    /// The pool invariant: resources and allocations are valid and keyed
    /// by distinct identifiers, and no resource is loaded past full
    /// capacity at any instant.
    pub open spec fn wf(self) -> bool {
        &&& forall|i: int| 0 <= i < self.resources@.len() ==> (#[trigger] self.resources@[i]).wf()
        &&& forall|i: int, j: int|
            0 <= i < j < self.resources@.len() ==> self.resources@[i].id != self.resources@[j].id
        &&& forall|i: int|
            0 <= i < self.allocations@.len() ==> (#[trigger] self.allocations@[i]).valid()
        &&& forall|i: int, j: int|
            0 <= i < j < self.allocations@.len() ==> self.allocations@[i].id
                != self.allocations@[j].id
        &&& forall|rid: u64, t: i64| load_at(self.allocations@, rid, t) <= FULL_ENGAGEMENT
    }

    /// The pool accepts a request iff the resource is known, is available
    /// over the window, and the engagement already committed on windows
    /// overlapping the request leaves room for it.
    pub open spec fn spec_accepts(
        self,
        request: AllocationRequest,
        calendar: ProjectCalendar,
    ) -> bool {
        &&& spec_has_resource(self.resources@, request.resource_id)
        &&& spec_resource_of(self.resources@, request.resource_id).spec_is_available(
            request.time_window,
            calendar,
        )
        &&& overlap_sum(self.allocations@, request.resource_id, request.time_window)
            + request.engagement_rate.permille <= FULL_ENGAGEMENT
    }

    /// True iff the pool knows a resource under the identifier.
    pub fn check_resource_exists(&self, resource_id: &u64) -> (r: bool)
        ensures
            r == spec_has_resource(self.resources@, *resource_id),
    {
        self.find_resource_index(resource_id).is_some()
    }

    /// Index of the resource with the identifier, if any.
    fn find_resource_index(&self, resource_id: &u64) -> (r: Option<usize>)
        ensures
            match r {
                Some(i) => i < self.resources@.len() && self.resources@[i as int].id
                    == *resource_id,
                None => !spec_has_resource(self.resources@, *resource_id),
            },
    {
        let n = self.resources.len();
        let mut i: usize = 0;
        while i < n
            invariant
                n == self.resources@.len(),
                i <= n,
                forall|j: int| 0 <= j < i ==> (#[trigger] self.resources@[j]).id != *resource_id,
            decreases n - i,
        {
            if self.resources[i].id == *resource_id {
                return Some(i);
            }
            i = i + 1;
        }
        None
    }

    /// The first resource bearing the name, if any bears it.
    pub fn get_resource_by_name(&self, find_name: String) -> (r: Option<&Resource>)
        ensures
            match r {
                Some(res) => exists|i: int|
                    0 <= i < self.resources@.len() && *res == (#[trigger] self.resources@[i])
                        && res.name@ == find_name@,
                None => forall|i: int|
                    0 <= i < self.resources@.len() ==> (#[trigger] self.resources@[i]).name@
                        != find_name@,
            },
    {
        let n = self.resources.len();
        let mut i: usize = 0;
        while i < n
            invariant
                n == self.resources@.len(),
                i <= n,
                forall|j: int| 0 <= j < i ==> (#[trigger] self.resources@[j]).name@ != find_name@,
            decreases n - i,
        {
            if self.resources[i].name == find_name {
                return Some(&self.resources[i]);
            }
            i = i + 1;
        }
        None
    }

    /// Shared access to every resource in the pool, in storage order.
    pub fn get_resources(&self) -> (r: Vec<&Resource>)
        ensures
            r@.len() == self.resources@.len(),
            forall|i: int| 0 <= i < r@.len() ==> *(#[trigger] r@[i]) == self.resources@[i],
    {
        let n = self.resources.len();
        let mut result: Vec<&Resource> = Vec::new();
        let mut i: usize = 0;
        while i < n
            invariant
                n == self.resources@.len(),
                i <= n,
                result@.len() == i,
                forall|j: int| 0 <= j < i ==> *(#[trigger] result@[j]) == self.resources@[j],
            decreases n - i,
        {
            result.push(&self.resources[i]);
            i = i + 1;
        }
        result
    }

    /// All allocations currently committed on the resource, in the order
    /// they were committed.
    pub fn get_resource_existing_allocations(&self, resource_id: &u64) -> (r: Vec<
        ResourceAllocation,
    >)
        ensures
            r@ == allocs_of(self.allocations@, *resource_id),
    {
        let n = self.allocations.len();
        let mut result: Vec<ResourceAllocation> = Vec::new();
        let mut i: usize = 0;
        while i < n
            invariant
                n == self.allocations@.len(),
                i <= n,
                result@ == allocs_of(self.allocations@.subrange(0, i as int), *resource_id),
            decreases n - i,
        {
            proof {
                let pre = self.allocations@.subrange(0, i + 1);
                assert(pre.drop_last() =~= self.allocations@.subrange(0, i as int));
                assert(pre.last() == self.allocations@[i as int]);
            }
            if self.allocations[i].resource_id == *resource_id {
                result.push(self.allocations[i]);
            }
            i = i + 1;
        }
        proof {
            assert(self.allocations@.subrange(0, n as int) =~= self.allocations@);
        }
        result
    }

    /// Stores the resource under its identifier, replacing any resource
    /// already stored under it.
    pub fn add_resource(&mut self, resource: Resource) -> (r: Result<(), AllocationError>)
        requires
            old(self).wf(),
            resource.wf(),
        ensures
            final(self).wf(),
            r is Ok,
            final(self).allocations@ == old(self).allocations@,
            spec_has_resource(old(self).resources@, resource.id) ==> exists|i: int|
                0 <= i < old(self).resources@.len() && (#[trigger] old(self).resources@[i]).id
                    == resource.id && final(self).resources@ == old(self).resources@.update(
                    i,
                    resource,
                ),
            !spec_has_resource(old(self).resources@, resource.id) ==> final(self).resources@ == old(
                self,
            ).resources@.push(resource),
    {
        match self.find_resource_index(&resource.id) {
            Some(i) => {
                self.resources.set(i, resource);
            },
            None => {
                self.resources.push(resource);
            },
        }
        Ok(())
    }

    /// Forgets the resource under the identifier; committed allocations
    /// that refer to it are left untouched.
    pub fn remove_resource(&mut self, id: &u64) -> (r: Result<(), AllocationError>)
        requires
            old(self).wf(),
        ensures
            final(self).wf(),
            final(self).allocations@ == old(self).allocations@,
            r is Ok <==> spec_has_resource(old(self).resources@, *id),
            r is Err ==> *final(self) == *old(self) && r == Result::<(), AllocationError>::Err(
                AllocationError::ResourceNotFound,
            ),
            r is Ok ==> exists|i: int|
                0 <= i < old(self).resources@.len() && (#[trigger] old(self).resources@[i]).id
                    == *id && final(self).resources@ == old(self).resources@.remove(i),
    {
        match self.find_resource_index(id) {
            Some(i) => {
                self.resources.remove(i);
                Ok(())
            },
            None => Err(AllocationError::ResourceNotFound),
        }
    }

    /// Records one more unavailable span on the resource under the
    /// identifier.
    pub fn add_unavailable_period(
        &mut self,
        resource_id: &u64,
        exception_period: ExceptionPeriod,
    ) -> (r: Result<(), AllocationError>)
        requires
            old(self).wf(),
        ensures
            final(self).wf(),
            final(self).allocations@ == old(self).allocations@,
            r is Ok <==> spec_has_resource(old(self).resources@, *resource_id),
            r is Err ==> *final(self) == *old(self) && r == Result::<(), AllocationError>::Err(
                AllocationError::ResourceNotFound,
            ),
            r is Ok ==> exists|i: int|
                {
                    &&& 0 <= i < old(self).resources@.len()
                    &&& (#[trigger] old(self).resources@[i]).id == *resource_id
                    &&& final(self).resources@.len() == old(self).resources@.len()
                    &&& spec_with_period(
                        old(self).resources@[i],
                        final(self).resources@[i],
                        exception_period,
                    )
                    &&& forall|j: int|
                        0 <= j < old(self).resources@.len() && j != i
                            ==> final(self).resources@[j] == old(self).resources@[j]
                },
    {
        match self.find_resource_index(resource_id) {
            Some(i) => {
                let mut res = self.resources.remove(i);
                res.add_unavailable_period(exception_period);
                let ghost newr = res;
                self.resources.insert(i, res);
                proof {
                    assert(self.resources@ =~= old(self).resources@.update(i as int, newr));
                }
                Ok(())
            },
            None => Err(AllocationError::ResourceNotFound),
        }
    }

    /// Destroys the allocation under the identifier, freeing its share of
    /// the resource's capacity.
    pub fn deallocate(&mut self, allocation_id: u64) -> (r: Result<(), AllocationError>)
        requires
            old(self).wf(),
        ensures
            final(self).wf(),
            final(self).resources@ == old(self).resources@,
            r is Ok <==> spec_has_allocation(old(self).allocations@, allocation_id),
            r is Err ==> *final(self) == *old(self) && r == Result::<(), AllocationError>::Err(
                AllocationError::AllocationNotFound,
            ),
            r is Ok ==> exists|i: int|
                0 <= i < old(self).allocations@.len() && (#[trigger] old(
                    self,
                ).allocations@[i]).id == allocation_id && final(self).allocations@ == old(
                    self,
                ).allocations@.remove(i),
    {
        let n = self.allocations.len();
        let mut i: usize = 0;
        while i < n
            invariant
                old(self).wf(),
                n == self.allocations@.len(),
                i <= n,
                *self == *old(self),
                forall|j: int| 0 <= j < i ==> (#[trigger] self.allocations@[j]).id
                    != allocation_id,
            decreases n - i,
        {
            if self.allocations[i].id == allocation_id {
                self.allocations.remove(i);
                proof {
                    let olds = old(self).allocations@;
                    let news = self.allocations@;
                    olds.remove_ensures(i as int);
                    assert(news == olds.remove(i as int));
                    assert forall|rid: u64, t: i64|
                        load_at(news, rid, t) <= FULL_ENGAGEMENT by {
                        lemma_load_at_remove(olds, i as int, rid, t);
                        assert(load_at(olds, rid, t) <= FULL_ENGAGEMENT);
                    }
                    assert(forall|k: int| 0 <= k < news.len() ==> (#[trigger] news[k]).valid());
                    assert(forall|k: int, l: int|
                        0 <= k < l < news.len() ==> news[k].id != news[l].id);
                }
                return Ok(());
            }
            i = i + 1;
        }
        Err(AllocationError::AllocationNotFound)
    }

    /// Decides the request without changing anything: resolves the
    /// resource, asks it about availability, and checks the capacity of
    /// the overlapping allocations.
    fn check_allocation_correct(
        &self,
        request: &AllocationRequest,
        calendar: &ProjectCalendar,
    ) -> (r: Result<(), AllocationError>)
        requires
            self.wf(),
            request.valid(),
            calendar.wf(),
        ensures
            r is Ok <==> self.spec_accepts(*request, *calendar),
            r == Result::<(), AllocationError>::Err(AllocationError::ResourceNotFound)
                <==> !spec_has_resource(self.resources@, request.resource_id),
            r == Result::<(), AllocationError>::Err(AllocationError::ResourceUnavailable)
                <==> spec_has_resource(self.resources@, request.resource_id)
                && !spec_resource_of(self.resources@, request.resource_id).spec_is_available(
                request.time_window,
                *calendar,
            ),
            r == Result::<(), AllocationError>::Err(AllocationError::OverCommitted)
                <==> spec_has_resource(self.resources@, request.resource_id)
                && spec_resource_of(self.resources@, request.resource_id).spec_is_available(
                request.time_window,
                *calendar,
            ) && overlap_sum(self.allocations@, request.resource_id, request.time_window)
                + request.engagement_rate.permille > FULL_ENGAGEMENT,
    {
        let idx = match self.find_resource_index(&request.resource_id) {
            Some(i) => i,
            None => {
                return Err(AllocationError::ResourceNotFound);
            },
        };
        proof {
            assert(spec_has_resource(self.resources@, request.resource_id));
            let j = resource_index(self.resources@, request.resource_id);
            assert(0 <= j < self.resources@.len() && self.resources@[j].id == request.resource_id);
            assert(j == idx as int);
        }
        let resource = &self.resources[idx];

        if !resource.is_available(&request.time_window, calendar) {
            return Err(AllocationError::ResourceUnavailable);
        }

        let existing_allocation_on_resource = self.get_resource_existing_allocations(
            &request.resource_id,
        );
        proof {
            lemma_overlap_sum_via_allocs_of(
                self.allocations@,
                request.resource_id,
                request.time_window,
            );
        }

        if existing_allocation_on_resource.is_empty() {
            return Ok(());
        }

        let aqr = AllocationQueryResult { allocations_list: existing_allocation_on_resource };

        if !aqr.check_correct_timewindow(request) {
            return Err(AllocationError::OverCommitted);
        }

        Ok(())
    }

    /// Stores the allocation under its identifier, replacing any
    /// allocation already stored under it.
    fn insert_allocation(&mut self, allocation: ResourceAllocation)
        requires
            forall|i: int, j: int|
                0 <= i < j < old(self).allocations@.len() ==> old(self).allocations@[i].id != old(
                    self,
                ).allocations@[j].id,
        ensures
            final(self).resources@ == old(self).resources@,
            final(self).allocations@ == spec_insert_alloc(old(self).allocations@, allocation),
    {
        let n = self.allocations.len();
        let mut i: usize = 0;
        while i < n
            invariant
                forall|k: int, l: int|
                    0 <= k < l < old(self).allocations@.len() ==> old(self).allocations@[k].id
                        != old(self).allocations@[l].id,
                n == self.allocations@.len(),
                i <= n,
                *self == *old(self),
                forall|j: int| 0 <= j < i ==> (#[trigger] self.allocations@[j]).id
                    != allocation.id,
            decreases n - i,
        {
            if self.allocations[i].id == allocation.id {
                self.allocations.set(i, allocation);
                proof {
                    let olds = old(self).allocations@;
                    assert(spec_has_allocation(olds, allocation.id)) by {
                        assert(olds[i as int].id == allocation.id);
                    }
                    let j = allocation_index(olds, allocation.id);
                    assert(0 <= j < olds.len() && olds[j].id == allocation.id);
                    if j < i as int {
                        assert(olds[j].id != allocation.id);
                        assert(false);
                    }
                    if j > i as int {
                        assert(olds[i as int].id != olds[j].id);
                        assert(false);
                    }
                    assert(j == i as int);
                }
                return ;
            }
            i = i + 1;
        }
        self.allocations.push(allocation);
    }

    /// Submits the request: on acceptance a fresh allocation is committed,
    /// on rejection nothing changes and the error names the first failed
    /// check (unknown resource, unavailable resource, or exhausted
    /// capacity).
    pub fn allocate(
        &mut self,
        request: AllocationRequest,
        calendar: &ProjectCalendar,
    ) -> (r: Result<(), AllocationError>)
        requires
            old(self).wf(),
            request.valid(),
            calendar.wf(),
        ensures
            final(self).wf(),
            final(self).resources@ == old(self).resources@,
            r is Ok <==> old(self).spec_accepts(request, *calendar),
            r is Err ==> *final(self) == *old(self),
            r == Result::<(), AllocationError>::Err(AllocationError::ResourceNotFound)
                <==> !spec_has_resource(old(self).resources@, request.resource_id),
            r == Result::<(), AllocationError>::Err(AllocationError::ResourceUnavailable)
                <==> spec_has_resource(old(self).resources@, request.resource_id)
                && !spec_resource_of(old(self).resources@, request.resource_id).spec_is_available(
                request.time_window,
                *calendar,
            ),
            r == Result::<(), AllocationError>::Err(AllocationError::OverCommitted)
                <==> spec_has_resource(old(self).resources@, request.resource_id)
                && spec_resource_of(old(self).resources@, request.resource_id).spec_is_available(
                request.time_window,
                *calendar,
            ) && overlap_sum(old(self).allocations@, request.resource_id, request.time_window)
                + request.engagement_rate.permille > FULL_ENGAGEMENT,
            r is Ok ==> exists|id: u64|
                final(self).allocations@ == spec_insert_alloc(
                    old(self).allocations@,
                    ResourceAllocation {
                        id,
                        resource_id: request.resource_id,
                        task_id: request.task_id,
                        project_id: request.project_id,
                        engagement_rate: request.engagement_rate,
                        time_window: request.time_window,
                    },
                ),
    {
        match self.check_allocation_correct(&request, calendar) {
            Ok(()) => {
                let allocation = ResourceAllocation::new(request);
                let ghost a = allocation;
                self.insert_allocation(allocation);
                proof {
                    let olds = old(self).allocations@;
                    let news = self.allocations@;
                    assert(a == (ResourceAllocation {
                        id: a.id,
                        resource_id: request.resource_id,
                        task_id: request.task_id,
                        project_id: request.project_id,
                        engagement_rate: request.engagement_rate,
                        time_window: request.time_window,
                    }));
                    assert(news == spec_insert_alloc(olds, a));
                    assert forall|rid: u64, t: i64| load_at(news, rid, t) <= FULL_ENGAGEMENT by {
                        if spec_has_allocation(olds, a.id) {
                            let j = allocation_index(olds, a.id);
                            assert(0 <= j < olds.len() && olds[j].id == a.id);
                            lemma_load_at_update(olds, j, a, rid, t);
                        } else {
                            lemma_load_at_push(olds, a, rid, t);
                        }
                        if contrib_at(a, rid, t) > 0 {
                            lemma_load_at_le_overlap_sum(olds, rid, t, request.time_window);
                        }
                    }
                    assert(forall|i: int|
                        0 <= i < news.len() ==> (#[trigger] news[i]).valid()) by {
                        if spec_has_allocation(olds, a.id) {
                            let j = allocation_index(olds, a.id);
                            assert(news =~= olds.update(j, a));
                        }
                    }
                    assert(forall|i: int, j: int|
                        0 <= i < j < news.len() ==> news[i].id != news[j].id) by {
                        if spec_has_allocation(olds, a.id) {
                            let j = allocation_index(olds, a.id);
                            assert(news =~= olds.update(j, a));
                            assert(olds[j].id == a.id);
                        }
                    }
                }
                Ok(())
            },
            Err(e) => Err(e),
        }
    }
}

impl Default for LocalResourcePool {
    /// An empty pool: no resources, no allocations, trivially within
    /// capacity.
    fn default() -> (r: LocalResourcePool)
        ensures
            r.wf(),
            r.resources@ =~= Seq::<Resource>::empty(),
            r.allocations@ =~= Seq::<ResourceAllocation>::empty(),
    {
        let pool = LocalResourcePool { resources: Vec::new(), allocations: Vec::new() };
        proof {
            assert forall|rid: u64, t: i64|
                load_at(pool.allocations@, rid, t) <= FULL_ENGAGEMENT by {
                assert(load_at(pool.allocations@, rid, t) == 0);
            }
        }
        pool
    }
}

/// The capacity invariant in one sentence: in a well-formed pool no
/// resource is engaged past full capacity at any instant, whatever
/// sequence of accepted allocations and deallocations built the pool.
pub proof fn lemma_capacity_invariant(pool: LocalResourcePool, rid: u64, t: i64)
    requires
        pool.wf(),
    ensures
        load_at(pool.allocations@, rid, t) <= FULL_ENGAGEMENT,
{
}

} // verus!
