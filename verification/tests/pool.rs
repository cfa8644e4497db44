use chrono::{TimeZone, Utc};
use logic::errors::AllocationError;
use logic::{
    AllocationRequest, EngagementRate, ExceptionPeriod, ExceptionType, LocalResourcePool,
    ProjectCalendar, RateMeasure, Resource, TimeWindow,
};

fn ts(y: i32, mo: u32, d: u32, h: u32, mi: u32, s: u32) -> i64 {
    Utc.with_ymd_and_hms(y, mo, d, h, mi, s).unwrap().timestamp()
}

fn window(y1: i32, m1: u32, d1: u32, y2: i32, m2: u32, d2: u32) -> TimeWindow {
    TimeWindow::new(ts(y1, m1, d1, 0, 0, 0), ts(y2, m2, d2, 0, 0, 0)).unwrap()
}

fn rate(permille: u32) -> EngagementRate {
    EngagementRate::new(permille).unwrap()
}

#[test]
fn resource_pool_test_deallocate() {
    let mut lrp = LocalResourcePool::default();
    let project_calendar = ProjectCalendar::default();
    let resource = Resource::new(String::from("Test"), 1000, RateMeasure::Hourly)
        .expect("Can't create resource");
    lrp.add_resource(resource.clone()).unwrap();
    let project_id: u64 = 71;

    let allocation_request = AllocationRequest::new(
        resource.id,
        11,
        project_id,
        rate(800),
        window(2025, 1, 1, 2026, 1, 1),
    );

    assert!(lrp.allocate(allocation_request, &project_calendar).is_ok());

    let al = lrp.get_resource_existing_allocations(&resource.id);
    let al_id = &al[0];

    assert!(lrp.deallocate(al_id.get_id()).is_ok())
}

#[test]
fn resource_pool_test_allocation_check() {
    let mut lrp = LocalResourcePool::default();
    let project_calendar = ProjectCalendar::default();
    let resource = Resource::new(String::from("Test"), 1000, RateMeasure::Hourly)
        .expect("Can't create resource");

    let project_id: u64 = 72;

    let allocation_request = AllocationRequest::new(
        resource.id,
        21,
        project_id,
        rate(800),
        window(2025, 1, 1, 2026, 1, 1),
    );
    assert!(!lrp.check_resource_exists(&resource.id));
    // The resource cannot be allocated before it joins the pool.
    assert!(lrp.allocate(allocation_request, &project_calendar).is_err());

    lrp.add_resource(resource.clone()).unwrap();
    assert!(lrp.allocate(allocation_request, &project_calendar).is_ok());

    let allocation_request2 = AllocationRequest::new(
        resource.id,
        22,
        project_id,
        rate(100),
        window(2025, 1, 1, 2026, 1, 1),
    );
    assert!(lrp.allocate(allocation_request2, &project_calendar).is_ok());

    let allocation_request3 = AllocationRequest::new(
        resource.id,
        23,
        project_id,
        rate(200),
        window(2025, 1, 1, 2025, 7, 1),
    );
    assert!(lrp.allocate(allocation_request3, &project_calendar).is_err());
}

#[test]
fn resource_pool_test_resource_measure_converter() {
    let resource = Resource::new(String::from("Test"), 1000, RateMeasure::Hourly)
        .expect("Can't create resource");
    assert_eq!(resource.get_base_rate(), 1000);
    assert_eq!(resource.get_converted_rate(RateMeasure::Daily), 8000);
    assert_eq!(resource.get_converted_rate(RateMeasure::Monthly), 176000);
}

#[test]
fn resource_pool_test_timewindows() {
    let date_first_start: i64 = ts(2025, 1, 1, 0, 0, 0);
    let date_first_end: i64 = ts(2026, 1, 1, 0, 0, 0);

    let date_second_start: i64 = ts(2025, 6, 1, 0, 0, 0);
    let date_second_end: i64 = ts(2025, 7, 1, 0, 0, 0);

    let timewindow1 = TimeWindow::new(date_first_start, date_first_end).unwrap();
    let timewindow2 = TimeWindow::new(date_second_start, date_second_end).unwrap();

    assert!(timewindow1.overlaps(&timewindow2));
}

#[test]
fn resource_pool_test_get_allocation_by_resource() {
    let project_calendar = ProjectCalendar::default();
    let resource = Resource::new(String::from("Test"), 1000, RateMeasure::Hourly)
        .expect("Can't create resource");

    let mut lrp = LocalResourcePool::default();
    lrp.add_resource(resource).unwrap();

    let resource_from_lrp = lrp.get_resource_by_name(String::from("Test")).unwrap().id;
    let zero_allocations = lrp.get_resource_existing_allocations(&resource_from_lrp);

    assert_eq!(zero_allocations.len(), 0);

    let ar1 = AllocationRequest::new(
        resource_from_lrp,
        31,
        81,
        rate(200),
        window(2025, 1, 1, 2026, 1, 1),
    );

    let ar2 = AllocationRequest::new(
        resource_from_lrp,
        32,
        82,
        rate(400),
        window(2025, 1, 1, 2026, 1, 1),
    );

    lrp.allocate(ar1, &project_calendar)
        .expect("Allocation not completed");

    let one_allocations = lrp.get_resource_existing_allocations(&resource_from_lrp);
    assert_eq!(one_allocations.len(), 1);

    lrp.allocate(ar2, &project_calendar)
        .expect("Allocation is not completed");

    let two_allocations = lrp.get_resource_existing_allocations(&resource_from_lrp);
    assert_eq!(two_allocations.len(), 2);
}

#[test]
fn capacity_boundary_is_inclusive() {
    // An empty pool accepts 0.8; an overlapping 0.3 overcommits; a 0.2 on
    // the same window lands exactly on full capacity and is accepted.
    let mut lrp = LocalResourcePool::default();
    let cal = ProjectCalendar::default();
    let resource =
        Resource::new(String::from("X"), 50, RateMeasure::Hourly).expect("resource");
    let rid = resource.id;
    lrp.add_resource(resource).unwrap();

    let w = window(2025, 3, 1, 2025, 4, 1);
    let overlapping = window(2025, 3, 15, 2025, 4, 15);

    assert!(lrp
        .allocate(AllocationRequest::new(rid, 1, 9, rate(800), w), &cal)
        .is_ok());
    assert_eq!(
        lrp.allocate(AllocationRequest::new(rid, 2, 9, rate(300), overlapping), &cal),
        Err(AllocationError::OverCommitted)
    );
    assert!(lrp
        .allocate(AllocationRequest::new(rid, 3, 9, rate(200), w), &cal)
        .is_ok());
}

#[test]
fn vacation_blocks_overlapping_requests() {
    // A vacation over [2025-02-16, 2025-02-20) leaves a disjoint window
    // allocatable and rejects an overlapping one as unavailable.
    let mut lrp = LocalResourcePool::default();
    let cal = ProjectCalendar::default();
    let mut resource =
        Resource::new(String::from("V"), 50, RateMeasure::Hourly).expect("resource");
    resource.add_unavailable_period(ExceptionPeriod {
        period: window(2025, 2, 16, 2025, 2, 20),
        exception_type: ExceptionType::Vacation,
    });
    let rid = resource.id;

    let disjoint = window(2025, 2, 1, 2025, 2, 15);
    let overlapping = window(2025, 2, 18, 2025, 2, 25);
    assert!(resource.is_available(&disjoint, &cal));
    assert!(!resource.is_available(&overlapping, &cal));

    lrp.add_resource(resource).unwrap();
    assert!(lrp
        .allocate(AllocationRequest::new(rid, 1, 9, rate(500), disjoint), &cal)
        .is_ok());
    assert_eq!(
        lrp.allocate(AllocationRequest::new(rid, 2, 9, rate(500), overlapping), &cal),
        Err(AllocationError::ResourceUnavailable)
    );
}

#[test]
fn deallocate_frees_capacity() {
    // An unknown id is rejected; after a successful deallocation a
    // previously conflicting request is accepted.
    let mut lrp = LocalResourcePool::default();
    let cal = ProjectCalendar::default();
    let resource =
        Resource::new(String::from("C"), 50, RateMeasure::Hourly).expect("resource");
    let rid = resource.id;
    lrp.add_resource(resource).unwrap();

    assert_eq!(lrp.deallocate(123456), Err(AllocationError::AllocationNotFound));

    let w = window(2025, 5, 1, 2025, 6, 1);
    lrp.allocate(AllocationRequest::new(rid, 1, 9, rate(800), w), &cal)
        .unwrap();
    let conflicting = AllocationRequest::new(rid, 2, 9, rate(500), w);
    assert_eq!(
        lrp.allocate(conflicting, &cal),
        Err(AllocationError::OverCommitted)
    );

    let held = lrp.get_resource_existing_allocations(&rid);
    lrp.deallocate(held[0].get_id()).unwrap();
    assert!(lrp.allocate(conflicting, &cal).is_ok());
}

#[test]
fn allocate_unknown_resource_is_rejected() {
    let mut lrp = LocalResourcePool::default();
    let cal = ProjectCalendar::default();
    let w = window(2025, 1, 1, 2025, 2, 1);
    assert_eq!(
        lrp.allocate(AllocationRequest::new(5, 1, 9, rate(100), w), &cal),
        Err(AllocationError::ResourceNotFound)
    );
}

#[test]
fn remove_resource_requires_presence() {
    // Unlike holiday mutation, resource removal is not idempotent: a
    // missing id is an error.
    let mut lrp = LocalResourcePool::default();
    let resource =
        Resource::new(String::from("R"), 50, RateMeasure::Hourly).expect("resource");
    let rid = resource.id;
    assert_eq!(lrp.remove_resource(&rid), Err(AllocationError::ResourceNotFound));
    lrp.add_resource(resource).unwrap();
    assert!(lrp.remove_resource(&rid).is_ok());
    assert_eq!(lrp.remove_resource(&rid), Err(AllocationError::ResourceNotFound));
}

#[test]
fn invalid_values_are_rejected() {
    assert_eq!(
        TimeWindow::new(ts(2025, 1, 1, 0, 0, 0), ts(2025, 1, 1, 0, 0, 0)),
        Err(AllocationError::InvalidRange)
    );
    assert!(TimeWindow::new(5, 4).is_err());
    assert!(matches!(
        Resource::new(String::from("Z"), 0, RateMeasure::Daily),
        Err(AllocationError::InvalidRate)
    ));
    assert!(EngagementRate::new(1000).is_ok());
    assert_eq!(EngagementRate::new(1001), Err(AllocationError::InvalidRate));
}

#[test]
fn query_result_answers_the_capacity_question() {
    let w = window(2025, 1, 1, 2025, 2, 1);
    let disjoint = window(2025, 3, 1, 2025, 4, 1);

    let a1 = logic::ResourceAllocation::new(AllocationRequest::new(1, 1, 1, rate(600), w));
    let a2 = logic::ResourceAllocation::new(AllocationRequest::new(1, 2, 1, rate(900), disjoint));
    assert_eq!(a1.get_engagement_rate().value(), 600);

    let aqr = logic::AllocationQueryResult { allocations_list: vec![a1, a2] };
    assert_eq!(aqr.len(), 2);
    assert!(!aqr.is_empty());

    // Only the overlapping 0.6 counts against the request's window, so a
    // 0.4 request fits exactly and a 0.5 request does not.
    let fits = AllocationRequest::new(1, 3, 1, rate(400), w);
    let too_much = AllocationRequest::new(1, 4, 1, rate(500), w);
    let aqr2 = logic::AllocationQueryResult { allocations_list: vec![a1, a2] };
    assert!(aqr.check_correct_timewindow(&fits));
    assert!(!aqr2.check_correct_timewindow(&too_much));
}

#[test]
fn pool_accessors_expose_the_pool() {
    let mut container = logic::SingleProjectContainer::new();
    assert!(container.resource_pool().get_resources().is_empty());
    let resource =
        Resource::new(String::from("A"), 10, RateMeasure::Hourly).expect("resource");
    container.resource_pool_mut().add_resource(resource).unwrap();
    assert_eq!(container.resource_pool().get_resources().len(), 1);
}

#[test]
fn resource_test_deallocate() {
    let mut lrp = LocalResourcePool::default();
    let project_calendar = ProjectCalendar::default();
    let resource = Resource::new(String::from("Test"), 1000, RateMeasure::Hourly)
        .expect("Can't create resource");
    lrp.add_resource(resource.clone()).unwrap();
    let project_id: u64 = 91;

    let allocation_request = AllocationRequest::new(
        resource.id,
        61,
        project_id,
        rate(800),
        window(2025, 1, 1, 2026, 1, 1),
    );
    assert!(lrp.allocate(allocation_request, &project_calendar).is_ok());

    let al = lrp.get_resource_existing_allocations(&resource.id);
    let al_id = &al[0];

    assert!(lrp.deallocate(al_id.get_id()).is_ok())
}

#[test]
fn resource_test_allocation_check() {
    let mut lrp = LocalResourcePool::default();
    let project_calendar = ProjectCalendar::default();
    let resource = Resource::new(String::from("Test"), 1000, RateMeasure::Hourly)
        .expect("Can't create resource");

    let project_id: u64 = 92;

    let allocation_request = AllocationRequest::new(
        resource.id,
        62,
        project_id,
        rate(800),
        window(2025, 1, 1, 2026, 1, 1),
    );
    assert!(!lrp.check_resource_exists(&resource.id));
    // The resource cannot be allocated before it joins the pool.
    assert!(lrp.allocate(allocation_request, &project_calendar).is_err());

    lrp.add_resource(resource.clone()).unwrap();
    assert!(lrp.allocate(allocation_request, &project_calendar).is_ok());

    let allocation_request2 = AllocationRequest::new(
        resource.id,
        63,
        project_id,
        rate(100),
        window(2025, 1, 1, 2026, 1, 1),
    );
    assert!(lrp.allocate(allocation_request2, &project_calendar).is_ok());

    let allocation_request3 = AllocationRequest::new(
        resource.id,
        64,
        project_id,
        rate(200),
        window(2025, 1, 1, 2025, 7, 1),
    );
    assert!(lrp.allocate(allocation_request3, &project_calendar).is_err());
}

#[test]
fn resource_test_resource_measure_converter() {
    let resource = Resource::new(String::from("Test"), 1000, RateMeasure::Hourly)
        .expect("Can't create resource");
    assert_eq!(resource.get_base_rate(), 1000);
    assert_eq!(resource.get_converted_rate(RateMeasure::Daily), 8000);
    assert_eq!(resource.get_converted_rate(RateMeasure::Monthly), 176000);
}

#[test]
fn removing_a_resource_leaves_its_allocations() {
    // Resource removal does not cascade: allocations committed on the
    // removed resource stay in the pool until deallocated by id.
    let mut lrp = LocalResourcePool::default();
    let cal = ProjectCalendar::default();
    let resource =
        Resource::new(String::from("D"), 50, RateMeasure::Hourly).expect("resource");
    let rid = resource.id;
    lrp.add_resource(resource).unwrap();
    lrp.allocate(
        AllocationRequest::new(rid, 1, 9, rate(300), window(2025, 1, 1, 2025, 2, 1)),
        &cal,
    )
    .unwrap();

    lrp.remove_resource(&rid).unwrap();
    assert!(!lrp.check_resource_exists(&rid));
    let dangling = lrp.get_resource_existing_allocations(&rid);
    assert_eq!(dangling.len(), 1);
    assert!(lrp.deallocate(dangling[0].get_id()).is_ok());
}
