//! Properties that hold across operations, for every input.

pub mod agreement;
pub mod archiving;
pub mod files;
pub mod forms;
pub mod handoffs;
pub mod legacy;
pub mod lists;
pub mod lives;
pub mod places;
pub mod reaping;
pub mod reconciling;
pub mod requests;
pub mod rows;
pub mod starting;
pub mod tracking;
pub mod views;
pub mod work;
pub mod writers;
