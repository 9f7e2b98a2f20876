//! Verified core of an ArceOS-style task runtime driven by a hardware
//! task-scheduling interrupt controller.
#![allow(unused_imports)]

pub mod parallel;
pub mod task;
pub mod wait_queue;
pub mod ats;
pub mod api;
pub mod mutex;
pub mod listen_table;
pub mod snoop;
pub mod plic;
pub mod executor;
pub mod mmio_map;
pub mod scheduler;
pub mod echo;
