pub mod classify;
pub mod move_plan;
