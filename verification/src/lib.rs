//! Verified core of a small cooperative task runtime with priority scheduling,
//! together with the pure logic of a web-crawler benchmark and of an SD card
//! initialisation protocol.

pub mod priority;
pub mod ready_task;
pub mod order;
pub mod ready_queue;
pub mod clock;
pub mod reactor;
pub mod task;
pub mod executor;
pub mod text;
pub mod targets;
pub mod page_text;
pub mod metric;
pub mod process_tree;
pub mod peak;
pub mod sd_fifo;
pub mod sd_init;
pub mod batching;
pub mod sd_cmd;
