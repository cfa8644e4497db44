use chrono::{TimeZone, Utc};
use logic::errors::{AllocationError, ServiceError};
use logic::{
    EngagementRate, ExceptionPeriod, ExceptionType, Project, RateMeasure, ResourceService,
    SingleProjectContainer, TaskService, TimeWindow,
};

fn ts(y: i32, mo: u32, d: u32, h: u32, mi: u32, s: u32) -> i64 {
    Utc.with_ymd_and_hms(y, mo, d, h, mi, s).unwrap().timestamp()
}

#[test]
fn create_empty_project() {
    let date_start = ts(2025, 1, 1, 0, 0, 0);
    let date_end = ts(2026, 1, 1, 0, 0, 0);

    let project = Project::new(
        String::from("TestProject"),
        String::from("Some test project"),
        date_start,
        date_end,
    )
    .unwrap();
    assert_eq!(project.name, String::from("TestProject"));
    assert_eq!(project.duration, date_end - date_start)
}

#[test]
fn test_resource_pool() {
    let mut container = SingleProjectContainer::new();
    let start = ts(2025, 1, 1, 0, 0, 0);
    let end = ts(2025, 12, 31, 0, 0, 0);
    let project = Project::new(String::from("Test"), String::from("Desc"), start, end).unwrap();
    let project_id = project.get_id();
    container.add_project(project).unwrap();

    let new_resource =
        ResourceService::create_resource(String::from("TestRes"), 1000, RateMeasure::Hourly)
            .unwrap();

    let new_resorce_id = new_resource.id;
    assert_eq!(new_resource.name, "TestRes");

    assert!(ResourceService::add_resource(&mut container, new_resource).is_ok());

    let vacations = ExceptionPeriod {
        exception_type: ExceptionType::Vacation,
        period: TimeWindow::new(ts(2025, 3, 1, 0, 0, 0), ts(2025, 3, 14, 0, 0, 0)).unwrap(),
    };
    assert!(
        ResourceService::add_unavailable_period(&mut container, new_resorce_id, vacations)
            .is_ok()
    );
    let resources_list = ResourceService::list_resources(&container);
    assert_eq!(resources_list.len(), 1);

    let resource_utilization =
        ResourceService::get_resource_utilization(&container, resources_list[0].id);
    assert_eq!(resource_utilization, 0);
    assert!(!resources_list[0].is_available(
        &TimeWindow::new(ts(2025, 3, 1, 0, 0, 0), ts(2025, 3, 14, 0, 0, 0)).unwrap(),
        container.calendar(&project_id).unwrap(),
    ))
}

#[test]
fn test_create_task() {
    let mut container = SingleProjectContainer::new();
    let start = ts(2025, 1, 1, 0, 0, 0);
    let end = ts(2025, 12, 31, 0, 0, 0);
    let project = Project::new(String::from("Test"), String::from("Desc"), start, end).unwrap();
    let project_id = project.get_id();

    container.add_project(project).unwrap();

    let task_start = ts(2025, 2, 1, 0, 0, 0);
    let task_end = ts(2025, 2, 15, 0, 0, 0);
    let task = TaskService::create_task(
        &mut container,
        project_id,
        String::from("task1"),
        task_start,
        task_end,
    )
    .expect("Failed to create task");

    assert_eq!(task.name, "task1");
    let tasks = TaskService::get_tasks(&container, &project_id);

    assert_eq!(tasks.len(), 1);
    assert_eq!(tasks[0].name, "task1")
}

#[test]
fn test_full_scenario() {
    let mut container = SingleProjectContainer::new();

    // Host a project inside the container.
    let start = ts(2025, 1, 1, 0, 0, 0);
    let end = ts(2025, 12, 31, 0, 0, 0);
    let project = Project::new(
        String::from("Test"),
        String::from("Integration test"),
        start,
        end,
    )
    .unwrap();
    let project_id = project.get_id();
    container.add_project(project).unwrap();

    // Create a task through the task service.
    let (task_id, task_start, task_end) = {
        let task_start = ts(2025, 2, 1, 0, 0, 0);
        let task_end = ts(2025, 2, 15, 0, 0, 0);

        let task = TaskService::create_task(
            &mut container,
            project_id,
            String::from("Design"),
            task_start,
            task_end,
        )
        .unwrap();
        (task.get_id(), task_start, task_end)
    };

    // Create a resource through the resource service.
    let resource_id = {
        let resource =
            ResourceService::create_resource(String::from("Max"), 1000, RateMeasure::Hourly)
                .unwrap();
        let resource_id = resource.id;
        ResourceService::add_resource(&mut container, resource).unwrap();

        // Record an unavailable period.
        let vacation = ExceptionPeriod {
            period: TimeWindow::new(ts(2025, 2, 16, 0, 0, 0), ts(2025, 2, 20, 0, 0, 0)).unwrap(),
            exception_type: ExceptionType::Vacation,
        };
        ResourceService::add_unavailable_period(&mut container, resource_id, vacation).unwrap();
        resource_id
    };

    {
        let time_window = TimeWindow::new(task_start, task_end).unwrap();
        TaskService::allocate_resource(
            &mut container,
            project_id,
            task_id,
            resource_id,
            EngagementRate::new(800).unwrap(),
            Some(time_window),
        )
        .unwrap();
    }

    let utilization = ResourceService::get_resource_utilization(&container, resource_id);
    assert_eq!(utilization, 800);
}

#[test]
fn container_hosts_one_project() {
    let mut container = SingleProjectContainer::new();
    let p1 = Project::new(
        String::from("One"),
        String::from("first"),
        ts(2025, 1, 1, 0, 0, 0),
        ts(2025, 6, 1, 0, 0, 0),
    )
    .unwrap();
    let p1_id = p1.get_id();
    container.add_project(p1).unwrap();

    let p2 = Project::new(
        String::from("Two"),
        String::from("second"),
        ts(2025, 1, 1, 0, 0, 0),
        ts(2025, 6, 1, 0, 0, 0),
    )
    .unwrap();
    assert!(container.add_project(p2).is_err());

    assert!(container.get_project(&p1_id).is_some());
    assert!(container.get_project(&(p1_id.wrapping_add(1))).is_none());
    assert!(container.calendar(&p1_id).is_some());
}

#[test]
fn create_task_checks_project_dates() {
    let mut container = SingleProjectContainer::new();
    let project = Project::new(
        String::from("P"),
        String::from("d"),
        ts(2025, 2, 1, 0, 0, 0),
        ts(2025, 3, 1, 0, 0, 0),
    )
    .unwrap();
    let project_id = project.get_id();
    container.add_project(project).unwrap();

    // Dates outside the project are rejected; so is an empty span.
    assert!(TaskService::create_task(
        &mut container,
        project_id,
        String::from("early"),
        ts(2025, 1, 15, 0, 0, 0),
        ts(2025, 2, 15, 0, 0, 0),
    )
    .is_err());
    assert!(TaskService::create_task(
        &mut container,
        project_id,
        String::from("empty"),
        ts(2025, 2, 10, 0, 0, 0),
        ts(2025, 2, 10, 0, 0, 0),
    )
    .is_err());
    assert_eq!(TaskService::get_tasks(&container, &project_id).len(), 0);
}

#[test]
fn service_errors_name_the_missing_piece() {
    let mut container = SingleProjectContainer::new();
    assert!(matches!(
        TaskService::create_task(
            &mut container,
            1,
            String::from("t"),
            ts(2025, 1, 1, 0, 0, 0),
            ts(2025, 1, 2, 0, 0, 0),
        ),
        Err(ServiceError::ProjectNotFound)
    ));

    let project = Project::new(
        String::from("P"),
        String::from("d"),
        ts(2025, 1, 1, 0, 0, 0),
        ts(2025, 12, 31, 0, 0, 0),
    )
    .unwrap();
    let project_id = project.get_id();
    container.add_project(project).unwrap();

    assert!(matches!(
        TaskService::create_task(
            &mut container,
            project_id,
            String::from("t"),
            ts(2024, 1, 1, 0, 0, 0),
            ts(2025, 1, 2, 0, 0, 0),
        ),
        Err(ServiceError::TaskDatesOutsideProject)
    ));

    assert_eq!(
        TaskService::allocate_resource(
            &mut container,
            project_id,
            99,
            1,
            EngagementRate::new(100).unwrap(),
            None,
        ),
        Err(ServiceError::TaskNotFound)
    );

    let task = TaskService::create_task(
        &mut container,
        project_id,
        String::from("t"),
        ts(2025, 2, 1, 0, 0, 0),
        ts(2025, 2, 15, 0, 0, 0),
    )
    .unwrap();
    assert_eq!(
        TaskService::allocate_resource(
            &mut container,
            project_id,
            task.get_id(),
            12345,
            EngagementRate::new(100).unwrap(),
            None,
        ),
        Err(ServiceError::Pool(AllocationError::ResourceNotFound))
    );

    assert_eq!(
        ResourceService::add_unavailable_period(
            &mut container,
            12345,
            ExceptionPeriod {
                period: TimeWindow::new(0, 10).unwrap(),
                exception_type: ExceptionType::SickLeave,
            },
        ),
        Err(ServiceError::ResourceNotFound)
    );
}
