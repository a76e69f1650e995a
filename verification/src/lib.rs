//! Thread scheduling and lifecycle management for a single-CPU kernel.
//!
//! The crate holds the bookkeeping of a preemptive kernel's threading core:
//! thread and process control blocks, the run queue, wait queues, sleep
//! objects, worker threads, deferred reaping of dead threads and the
//! reschedule decision. The machine-dependent context switch is left to the
//! caller: every operation that changes the running thread returns a
//! [`Switch`] that tells the caller which switch to perform.
//!
//! Beside the core stand three of its users: the network interface layer,
//! the virtio block device, and the command interpreter of the console.

pub mod thread;
pub mod thread_list;
pub mod process;
pub mod state;
pub mod wait_queue;
pub mod sleep_object;
pub mod reaper;
pub mod scheduler;
pub mod worker_thread;
pub mod shell;
pub mod laws;
pub mod nic;
pub mod block;

pub use crate::scheduler::{
    exit_process, get_process_id, get_process_local, get_thread_id, idle_thread, init, reschedule,
    terminate_thread, yield_time, yield_to, IdleStep, Scheduler, SpawnError,
};
pub use crate::state::{EventMask, Switch};
pub use crate::thread::{ProcessID, RunState, Thread, ThreadID, ThreadPtr};
pub use crate::thread_list::ThreadList;
