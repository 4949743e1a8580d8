//! Verified core of a fuel-based interference mitigation framework.
pub mod array;
pub mod bump;
pub mod cgroup;
pub mod counter;
pub mod fuel;
pub mod intruder;
pub mod kernel;
pub mod order;
pub mod pids;
pub mod records;
pub mod runner;
pub mod stm;
pub mod systick;
