//! Verified core of a POSIX system-call layer for a small unikernel:
//! calendar arithmetic, pipes, descriptor tables, path handling, select/poll
//! and epoll bookkeeping, signals, futex operations and process helpers.
pub mod errno;
pub mod calendar;
pub mod pipe;
pub mod bytes;
pub mod path;
pub mod runtime;
pub mod fdset;
pub mod epoll;
pub mod poll;
pub mod signal;
pub mod memory;
pub mod shebang;
pub mod launch;
pub mod mutex;
pub mod fdtable;
pub mod process;
pub mod timeutil;
pub mod futex;
pub mod syscall;
pub mod stack;
pub mod elf;
pub mod sockopt;
pub mod shm;
pub mod riscv;
pub mod sockets;
pub mod iov;
pub mod sigctx;
pub mod fsmeta;
pub mod sysinfo;
pub mod decimal;
pub mod fdentry;
pub mod localsock;
pub mod waitstep;
pub mod regorder;

pub use errno::Errno;
pub use calendar::{civil_from_days, day_of_year, days_since_sunday, is_leap_year};
pub use launch::{run_user_program, run_user_program_in};
pub use mutex::PthreadMutex;
