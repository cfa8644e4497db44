use vstd::prelude::*;
use crate::errors::{AllocationError, ServiceError};
use crate::project_containers::SingleProjectContainer;
use crate::resource::{ExceptionPeriod, RateMeasure, Resource, MAX_RATE};
use crate::resource_pool::{
    allocs_of, capped, lemma_total_engagement_via_allocs_of, spec_has_resource,
    spec_resources_after_add, spec_with_period, total_engagement, total_engagement_any,
};

verus! {

/// The service face of resource management: creating resources, handing
/// them to a container's pool, and reading utilisation back out.
pub struct ResourceService {}

impl ResourceService {
    /// Builds a resource, rejecting exactly the rate zero.
    pub fn create_resource(name: String, rate: u64, measure: RateMeasure) -> (r: Result<
        Resource,
        AllocationError,
    >)
        requires
            rate <= MAX_RATE,
        ensures
            r is Ok <==> rate >= 1,
            r matches Ok(res) ==> {
                &&& res.name@ == name@
                &&& res.rate == rate
                &&& res.rate_measure == measure
                &&& res.unavailable_periods@ =~= Seq::<ExceptionPeriod>::empty()
                &&& res.wf()
            },
            r is Err ==> r == Result::<Resource, AllocationError>::Err(
                AllocationError::InvalidRate,
            ),
    {
        Resource::new(name, rate, measure)
    }

    /// Hands the resource to the container's pool.
    pub fn add_resource(container: &mut SingleProjectContainer, resource: Resource) -> (r: Result<
        (),
        ServiceError,
    >)
        requires
            old(container).wf(),
            resource.wf(),
        ensures
            final(container).wf(),
            r is Ok,
            final(container).project == old(container).project,
            final(container).resource_pool.allocations@ == old(
                container,
            ).resource_pool.allocations@,
            spec_resources_after_add(
                old(container).resource_pool.resources@,
                final(container).resource_pool.resources@,
                resource,
            ),
    {
        match container.resource_pool.add_resource(resource) {
            Ok(()) => Ok(()),
            Err(_) => Ok(()),
        }
    }

    /// Shared access to every resource in the container's pool.
    pub fn list_resources(container: &SingleProjectContainer) -> (r: Vec<&Resource>)
        ensures
            r@.len() == container.resource_pool.resources@.len(),
            forall|i: int|
                0 <= i < r@.len() ==> *(#[trigger] r@[i]) == container.resource_pool.resources@[i],
    {
        container.resource_pool.get_resources()
    }

    /// Records one more unavailable span on the resource in the
    /// container's pool.
    pub fn add_unavailable_period(
        container: &mut SingleProjectContainer,
        resource_id: u64,
        exception_period: ExceptionPeriod,
    ) -> (r: Result<(), ServiceError>)
        requires
            old(container).wf(),
        ensures
            final(container).wf(),
            final(container).project == old(container).project,
            final(container).resource_pool.allocations@ == old(
                container,
            ).resource_pool.allocations@,
            r is Ok <==> spec_has_resource(old(container).resource_pool.resources@, resource_id),
            r is Err ==> *final(container) == *old(container) && r == Result::<
                (),
                ServiceError,
            >::Err(ServiceError::ResourceNotFound),
            r is Ok ==> exists|i: int|
                {
                    &&& 0 <= i < old(container).resource_pool.resources@.len()
                    &&& (#[trigger] old(container).resource_pool.resources@[i]).id == resource_id
                    &&& final(container).resource_pool.resources@.len() == old(
                        container,
                    ).resource_pool.resources@.len()
                    &&& spec_with_period(
                        old(container).resource_pool.resources@[i],
                        final(container).resource_pool.resources@[i],
                        exception_period,
                    )
                    &&& forall|j: int|
                        0 <= j < old(container).resource_pool.resources@.len() && j != i
                            ==> final(container).resource_pool.resources@[j]
                            == old(container).resource_pool.resources@[j]
                },
    {
        match container.resource_pool.add_unavailable_period(&resource_id, exception_period) {
            Ok(()) => Ok(()),
            Err(_) => Err(ServiceError::ResourceNotFound),
        }
    }

    /// The resource's engagement summed over all its allocations in the
    /// container's pool, whatever their windows; capped at what the
    /// counter can hold.
    pub fn get_resource_utilization(container: &SingleProjectContainer, resource_id: u64) -> (r:
        u64)
        ensures
            r == capped(total_engagement(container.resource_pool.allocations@, resource_id)),
    {
        let allocations = container.resource_pool.get_resource_existing_allocations(&resource_id);
        proof {
            lemma_total_engagement_via_allocs_of(
                container.resource_pool.allocations@,
                resource_id,
            );
        }
        let ghost all = allocs_of(container.resource_pool.allocations@, resource_id);
        let n = allocations.len();
        let mut total: u64 = 0;
        let mut i: usize = 0;
        while i < n
            invariant
                allocations@ == all,
                n == all.len(),
                i <= n,
                total == capped(total_engagement_any(all.subrange(0, i as int))),
                0 <= total_engagement_any(all.subrange(0, i as int)),
            decreases n - i,
        {
            proof {
                let pre = all.subrange(0, i + 1);
                assert(pre.drop_last() =~= all.subrange(0, i as int));
                assert(pre.last() == all[i as int]);
            }
            let v = allocations[i].engagement_rate.value();
            total = match total.checked_add(v as u64) {
                Some(t) => t,
                None => u64::MAX,
            };
            i = i + 1;
        }
        proof {
            assert(all.subrange(0, n as int) =~= all);
        }
        total
    }
}

} // verus!
