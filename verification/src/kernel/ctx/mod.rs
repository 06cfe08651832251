//! Contexts: the hypervisor's view of a guest and the kernel's schedulable,
//! resource-limited contexts.
use vstd::prelude::*;

verus! {

pub const PRIO_REALTIME: i8 = 127;
pub const PRIO_DEFAULT: i8 = 0;
pub const PRIO_BACKGROUND: i8 = -127;

/// A guest of the hypervisor.
pub struct HvContext {
    pub id: u32,
    /// Address of its root translation table.
    pub mem_table: usize,
    pub time_offset: i64,
    pub page_table: usize,
    pub res_harts: usize,
    pub res_mems: usize,
    pub res_drives: usize,
    pub ctx_end: usize,
}

/// A virtual hart of a guest.
pub struct HvHart {
    pub hart: usize,
    pub time: u64,
    pub state: u8,
    pub priority: u8,
    pub runtime: u32,
    pub next: usize,
    pub kernel_stack: usize,
    pub core_img: crate::kernel::arch::amd64::Context,
}

/// Memory given to a guest.
pub struct HvMemory {
    pub mem: usize,
    pub size: u32,
    pub present: u32,
}

/// A drive given to a guest, with its limits.
pub struct HvDrive {
    pub drive: usize,
    pub partid: u128,
    pub lim_ops: u32,
    pub lim_rw: u32,
    pub lim_time: u32,
}

/// A context: its place in the context tree, its scheduling state and its
/// resource limits and usage. Links to other objects are their addresses.
pub struct Context {
    pub id: u32,
    pub flags: u32,
    pub parent: usize,
    pub sibling_prev: usize,
    pub sibling_next: usize,
    pub children: usize,
    pub kernel_stack: usize,
    pub time_offset: i64,
    pub sch_state: u8,
    pub sch_priority: u8,
    pub sch_runtime: u32,
    pub sch_affinity: [u8; 128],
    pub sch_hart: usize,
    pub sch_parent: usize,
    pub sch_left: usize,
    pub sch_right: usize,
    pub cid_counter: u32,
    pub int_mask: u128,
    pub mem_table: usize,
    pub lim_cpu_time: u32,
    pub lim_mem_mapped: u32,
    pub lim_mem_present: u32,
    pub lim_mem_swapped: u32,
    pub lim_io_ops_ram: u32,
    pub lim_io_ops_msm: u32,
    pub lim_io_rw_ram: u32,
    pub lim_io_rw_msm: u32,
    pub lim_io_time_ram: u32,
    pub lim_io_time_msm: u32,
    pub lim_open_rds: u32,
    pub lim_threats: u32,
    pub usg_cpu_time: u32,
    pub usg_mem_mapped: u32,
    pub usg_mem_present: u32,
    pub usg_mem_swapped: u32,
    pub usg_io_ops_ram: u32,
    pub usg_io_ops_msm: u32,
    pub usg_io_rw_ram: u32,
    pub usg_io_rw_msm: u32,
    pub usg_io_time_ram: u32,
    pub usg_io_time_msm: u32,
    pub usg_open_rds: u32,
    pub usg_threads: u32,
}

impl Context {
    pub const STATE_READY: u8 = 0;
    pub const STATE_RUNNING: u8 = 1;
    pub const STATE_BLOCKED: u8 = 2;
    pub const STATE_SUSPENDED: u8 = 3;
    pub const STATE_STOPPED: u8 = 4;
    /// Context is a context id namespace.
    pub const FLAG_CTX_CID: u32 = 0x1;
    /// Context can be executed.
    pub const FLAG_CTX_EXE: u32 = 0x2;
    /// Context has its own interrupt handler.
    pub const FLAG_CTX_INT: u32 = 0x4;
    /// Context has its own translation tables.
    pub const FLAG_CTX_MEM: u32 = 0x8;
    /// Context is a mount namespace.
    pub const FLAG_CTX_MNT: u32 = 0x10;
    /// Context has resource limits.
    pub const FLAG_CTX_LIM: u32 = 0x20;
    /// Context records resource usage.
    pub const FLAG_CTX_USG: u32 = 0x40;
    /// Context can be scheduled.
    pub const FLAG_CTX_SCH: u32 = 0x80;
    /// Context captures its children's system calls.
    pub const FLAG_CTX_SVC: u32 = 0x100;
    /// Kernel context, runs privileged.
    pub const FLAG_PRIVILEGED: u32 = 0x200;
    pub const FLAG_INT_VECTORED: u32 = 0x400;
    pub const FLAG_INT_MASKED: u32 = 0x800;
    /// Writes of a mount namespace are visible to the parent context.
    pub const FLAG_MNT_WRITE_THROUGH: u32 = 0x1000;
    /// Writes of the parent context are visible to a mount namespace.
    pub const FLAG_MNT_READ_THROUGH: u32 = 0x2000;
}

/// A resource a context holds.
pub struct ResourceDescriptor {
    pub flags: usize,
    pub node: usize,
    pub ctx: usize,
    pub next: usize,
    pub prev: usize,
}

pub const INTID_INVALID_MEM_REF: usize = 1;
pub const INTID_ILLEGAL_INSTRUCTION: usize = 2;
pub const INTID_FP_EXCEPTION: usize = 3;
pub const INTID_DEBUG: usize = 4;
pub const INTID_TIMER: usize = 5;
pub const INTID_TERMINATE: usize = 6;
pub const INTID_ABORT: usize = 7;

/// An event of the file system.
#[derive(Copy, Clone, Debug, PartialEq, Eq, Structural)]
pub enum FsEvent {
    Create,
    Modify { flags: usize },
    Remove,
}

pub const FS_EVENT_MODIFY_FLAG_NAME: usize = 0x1;
pub const FS_EVENT_MODIFY_FLAG_DATA: usize = 0x2;
pub const FS_EVENT_MODIFY_FLAG_PERMISSIONS: usize = 0x4;
pub const FS_EVENT_MODIFY_FLAG_ATTR: usize = 0x8;

/// An interrupt of a context, with what it carries. Addresses, resource
/// descriptors and tasks are given by number.
#[derive(Copy, Clone, Debug, PartialEq, Eq)]
pub enum InterruptWithArgs {
    /// An access to unmapped or misaligned memory.
    InvalidMemRef { address: usize, reason: usize, faulting_address: usize },
    IllegalInstruction { address: usize, reason: usize },
    FloatingPointException { address: usize, reason: usize },
    Debug { address: usize, debug_type: usize },
    /// The timer fired.
    Timer,
    /// The task is asked to terminate.
    Term,
    /// The task is killed.
    Abort,
    /// An I/O operation finished.
    IoReady { rd: usize, op_id: usize, result: Result<usize, usize> },
    /// A synchronization primitive is available.
    Sync { address: usize },
    /// A task was halted or stopped.
    TaskStatusChange { task: usize, old_state: u8, new_state: u8 },
    /// A task sent a resource descriptor.
    SendRd { task: usize, rd: usize },
    /// A file system event the task subscribed to.
    FsEvent { rd: usize, event: FsEvent },
}

/// What to do with an interrupt.
#[derive(Copy, Clone, Debug, PartialEq, Eq, Structural)]
pub enum InterruptAction {
    /// Ignore the interrupt.
    Ignore,
    /// Abort the task.
    Abort,
    /// Interrupt the task and call the interrupt handler.
    Handle,
    /// Handle the interrupt as a task of its own.
    HandleDetached,
    /// Resume a halted task.
    Resume,
}

} // verus!
