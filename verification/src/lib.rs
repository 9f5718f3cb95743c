//! A personal task tracker: tasks with tags, due dates, priorities and
//! statuses, a tolerant flat-record codec, a filter over the tasks and a
//! grouped, sorted listing.

pub mod date;
pub mod decimal;
pub mod filter;
pub mod helpers;
pub mod notion;
pub mod notion_props;
pub mod records;
pub mod task;
pub mod task_manager;
pub mod text;
pub mod view;
