//! A resource-allocation and scheduling engine for project plans.
//!
//! The engine decides whether a resource can be committed to a task over a
//! given time span without exceeding its capacity or violating its
//! calendar-based availability.  Time windows, working calendars, resources
//! and the allocation pool are all specified and verified here.

pub mod errors;
mod ids;
pub mod project;
pub mod project_calendar;
pub mod project_containers;
pub mod resource;
pub mod resource_pool;
pub mod resource_service;
pub mod task_service;
pub mod tasks;
pub mod time_window;

pub use errors::{AllocationError, ProjectCreationErrors, ServiceError};
pub use project::Project;
pub use project_calendar::ProjectCalendar;
pub use project_containers::SingleProjectContainer;
pub use resource::{EngagementRate, ExceptionPeriod, ExceptionType, RateMeasure, Resource};
pub use resource_pool::{
    AllocationQueryResult, AllocationRequest, LocalResourcePool, ResourceAllocation,
};
pub use resource_service::ResourceService;
pub use task_service::TaskService;
pub use tasks::{Dependency, DependencyNodeType, DependencyType, ResourceOnTask, Task, TaskStatus};
pub use time_window::TimeWindow;
