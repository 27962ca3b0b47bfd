//! The task engine: tasks, the actions that pages yield, the task graph and the scheduler.
pub mod action;
pub mod generator;
pub mod graph;
pub mod page;
pub mod scheduler;
pub mod task;
pub mod task_pool;
pub mod workflow;
