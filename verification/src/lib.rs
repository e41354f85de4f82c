//! A small capability microkernel: threads, message passing, signals, capabilities and
//! address spaces, and nothing else.
//!
//! A trap hands the kernel the registers of the thread that trapped, as a
//! [`trap::TrapFrame`]; [`dispatch`] does what they ask for and leaves in the frame the
//! registers of the thread that runs next. All authority is in capabilities: the thread
//! names one by a number, a slot of its own CNode, and the kernel acts on what it finds
//! there, as far as the rights of the capability go.
//!
//! The executable kernel is [`state::KernelState`] and what works on it:
//!
//! - [`cap`], [`object`], [`pool`], [`queue`], [`scheduler`]: the objects and where they
//!   are kept;
//! - [`ipc`], [`cnode`], [`admin`], [`frame`]: the syscalls, by topic;
//! - [`syscall`]: which is which.
//!
//! Page tables and the hardware are outside. What has to be done with them, a trap leaves
//! behind as plain values: a [`frame::PagingAction`], and the address space to activate.
//!
//! Every function says exactly what it does over [`model::KernelModel`], the kernel state
//! as mathematical values. A syscall is a function from model and registers to model,
//! registers and result. What holds of all of them together is proved in
//! [`consistency`] (every thread is where its state says), [`authority`] (no capability
//! from nowhere), [`memory`] (nothing is handed out twice), [`exchange`] (messages and
//! signals arrive), [`resources`] (objects and mappings) and [`laws`] (failures change
//! nothing, threads are kept apart). What a trap brings about, for whoever made it and for
//! everybody else, is said on the bare contents of kernel and registers, in the words of
//! [`terms`]: [`delivery`] (messages and replies), [`turns`] (who runs, and in which address
//! space; signals), [`grants`] (capabilities, new objects, configured threads) and [`pages`]
//! (what is mapped, and with which permissions).

pub mod abi;
pub mod admin;
pub mod authority;
pub mod cap;
pub mod cnode;
pub mod consistency;
pub mod delivery;
pub mod error;
pub mod exchange;
pub mod frame;
pub mod grants;
pub mod ipc;
pub mod laws;
pub mod limits;
pub mod memory;
pub mod model;
pub mod object;
pub mod pages;
pub mod pool;
pub mod queue;
pub mod resources;
pub mod scheduler;
pub mod state;
pub mod syscall;
pub mod terms;
pub mod trap;
pub mod turns;

pub use error::SyscallError;
pub use syscall::{dispatch, SyscallNumber};
