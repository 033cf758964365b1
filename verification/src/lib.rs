//! Planning of production tasks: quantity parsing, inventory checks, operation
//! presets with reviewed updates, and the state of the task form.

pub mod assistant;
pub mod calendar;
pub mod chart;
pub mod diff;
pub mod form;
pub mod inventory;
pub mod keyed;
pub mod materials;
pub mod order;
pub mod preset;
pub mod quantity;
pub mod task;
pub mod text;
