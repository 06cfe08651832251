//! The kernel's event log: a ring of entries.
use vstd::prelude::*;

verus! {

pub const EVENT_CTX_CREATE: u16 = 0x1;
pub const EVENT_CTX_DELETE: u16 = 0x2;
pub const EVENT_CTX_PREEMT: u16 = 0x3;
pub const EVENT_CTX_SCHEDULE: u16 = 0x4;
pub const EVENT_CTX_ENQUEUE: u16 = 0x5;
pub const EVENT_CTX_DEQUEUE: u16 = 0x6;
pub const EVENT_CTX_INTERRUPT: u16 = 0x7;
pub const EVENT_ALLOC_PAGE: u16 = 0x10;

/// An event of the log.
#[derive(Copy, Clone, Debug, PartialEq, Eq, Structural)]
pub struct LogEntry {
    pub event: u16,
    pub hart: u16,
    pub ctx: u16,
    pub time: u64,
    pub param0: u32,
    pub param1: u32,
    pub param2: u32,
    pub param3: u32,
}

/// The log: its entries and the slot the next event goes to.
pub struct LogBuf {
    pub buf: Vec<LogEntry>,
    pub ptr: usize,
}

impl LogBuf {
    /// Stores `event` in the next slot; past the last slot the log starts
    /// again at the first.
    pub fn log(&mut self, event: LogEntry)
        requires
            old(self).buf@.len() > 0,
        ensures
            ({
                let p = if old(self).ptr >= old(self).buf@.len() { 0 } else { old(self).ptr as int };
                &&& final(self).buf@ == old(self).buf@.update(p, event)
                &&& final(self).ptr == p + 1
            }),
    {
        let mut p = self.ptr;
        if p >= self.buf.len() {
            p = 0;
        }
        self.buf.set(p, event);
        self.ptr = p + 1;
    }
}

} // verus!
