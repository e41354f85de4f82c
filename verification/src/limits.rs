//! Fixed capacities. The kernel allocates nothing after boot, so every object pool
//! and every queue is an array of one of these sizes.

use vstd::prelude::*;

verus! {

pub const MAX_CNODES: usize = 4;

pub const MAX_TCBS: usize = 8;

pub const MAX_ENDPOINTS: usize = 8;

pub const MAX_NOTIFICATIONS: usize = 8;

pub const MAX_UNTYPEDS: usize = 4;

pub const MAX_SCHED_CONTEXTS: usize = 8;

pub const MAX_VSPACES: usize = 4;

/// Enough for the segments and the stack of a few small programs.
pub const MAX_FRAMES: usize = 16;

/// How many page tables, roots and branches together, whoever sets up the machine may
/// reckon with. The kernel itself takes page tables out of untyped memory and does not count
/// them.
pub const MAX_KERNEL_PAGE_TABLES: usize = 32;

/// Slots of one CNode. A CSpace is a single CNode, so this is also the number of
/// capabilities that one thread can name.
pub const CNODE_SLOTS: usize = 32;

} // verus!
