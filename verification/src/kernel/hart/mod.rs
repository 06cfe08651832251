//! Harts: the processors the kernel schedules contexts on.
use vstd::prelude::*;
use crate::kernel::ctx::Context;

verus! {

/// A hart and its scheduling state. Links to other objects are their
/// addresses; `current` and `queue` name contexts.
pub struct Hart {
    pub id: u32,
    pub status: u32,
    pub flags: u32,
    pub timer: crate::kernel::arch::amd64::Timer,
    pub int: crate::kernel::arch::amd64::Hart,
    pub preferred_node: usize,
    pub current: Option<usize>,
    pub queue: Option<usize>,
    pub migration_queue: usize,
    /// The accumulated priority of the contexts on this hart, for load
    /// balancing.
    pub load: u32,
    pub latency: u32,
    pub runtime: u64,
    pub min_load: u32,
    pub min_latency: u32,
    pub min_granulity: u32,
    pub min_runtime: u64,
}

impl Hart {
    pub const STATUS_UNKNOWN: usize = 0;
    pub const STATUS_PRE_BOOT: usize = 1;
    pub const STATUS_BOOTING: usize = 2;
    pub const STATUS_BOOT_COMPLETED: usize = 3;
    pub const STATUS_UP: usize = 4;
    pub const STATUS_DOWN: usize = 5;
    pub const FLAG_BSC: usize = 1;

    /// The hart and the context after `ctx` is put on this hart, which
    /// contexts name by `this`: the context's priority adds to the load, and
    /// the context is ready on this hart with the hart's least runtime.
    pub open spec fn enqueued(self, this: usize, ctx: Context) -> (Hart, Context) {
        (
            Hart { load: (self.load + ctx.sch_priority) as u32, ..self },
            Context {
                sch_hart: this,
                sch_state: Context::STATE_READY,
                sch_runtime: self.min_runtime as u32,
                ..ctx
            },
        )
    }

    /// The hart and the context after `ctx` is taken off this hart into
    /// `state`: the context's priority leaves the load.
    pub open spec fn dequeued(self, ctx: Context, state: u8) -> (Hart, Context) {
        (Hart { load: (self.load - ctx.sch_priority) as u32, ..self }, Context { sch_state: state, ..ctx })
    }

    /// Brings a hart up; nothing is done yet.
    pub fn up() {
    }

    /// Takes a hart down; nothing is done yet.
    pub fn down() {
    }

    /// Puts `ctx` on this hart, which contexts name by the address `this`:
    /// its priority adds to the hart's load, and it becomes ready to run on
    /// this hart with the hart's least runtime (cut to the context's 32-bit
    /// runtime). Picking the context to run next is left to the caller.
    pub fn enqueue(&mut self, this: usize, ctx: &mut Context)
        requires
            old(self).load + old(ctx).sch_priority <= u32::MAX,
        ensures
            (*final(self), *final(ctx)) == old(self).enqueued(this, *old(ctx)),
    {
        self.load = self.load + ctx.sch_priority as u32;
        ctx.sch_hart = this;
        ctx.sch_state = Context::STATE_READY;
        ctx.sch_runtime = self.min_runtime as u32;
    }

    /// Takes `ctx` off this hart: its priority leaves the hart's load, and it
    /// enters `state`. Picking the context to run next is left to the
    /// caller.
    pub fn dequeue(&mut self, ctx: &mut Context, state: u8)
        requires
            old(self).load >= old(ctx).sch_priority,
        ensures
            (*final(self), *final(ctx)) == old(self).dequeued(*old(ctx), state),
    {
        self.load = self.load - ctx.sch_priority as u32;
        ctx.sch_state = state;
    }

    /// Stops `ctx`, the context this hart ran, after `elapsed` timer ticks:
    /// its runtime grows by its share of them (the ticks times `weight`, the
    /// weight of its priority, over the hart's load) and it enters `state`.
    /// Saving its registers and picking the next context are left to the
    /// caller.
    pub fn preempt(&self, ctx: &mut Context, elapsed: u32, weight: u32, state: u8)
        requires
            self.load > 0,
            elapsed * weight <= u32::MAX,
            old(ctx).sch_runtime + (elapsed * weight) / (self.load as int) <= u32::MAX,
        ensures
            *final(ctx) == (Context {
                sch_runtime: (old(ctx).sch_runtime + (elapsed * weight) / (self.load as int)) as u32,
                sch_state: state,
                ..*old(ctx)
            }),
    {
        let share = elapsed * weight / self.load;
        ctx.sch_runtime = ctx.sch_runtime + share;
        ctx.sch_state = state;
    }

    /// Runs `ctx`, the context this hart's `current` names, for a time slice
    /// of its share of the hart's latency (the latency times `weight`, the
    /// weight of the context's priority, over the hart's load), at least the
    /// least granularity: the context starts running and the hart's least
    /// runtime becomes the context's runtime. The time slice is returned for
    /// the caller to program the timer with.
    pub fn schedule(&mut self, ctx: &mut Context, weight: u32) -> (slice: u32)
        requires
            old(self).current is Some,
            old(self).load > 0,
            old(self).latency * weight <= u32::MAX,
        ensures
            slice == if old(self).min_granulity >= (old(self).latency * weight) / (old(self).load as int) {
                old(self).min_granulity
            } else {
                ((old(self).latency * weight) / (old(self).load as int)) as u32
            },
            *final(self) == (Hart { min_runtime: old(ctx).sch_runtime as u64, ..*old(self) }),
            *final(ctx) == (Context { sch_state: Context::STATE_RUNNING, ..*old(ctx) }),
    {
        let share = self.latency * weight / self.load;
        let slice = if self.min_granulity >= share {
            self.min_granulity
        } else {
            share
        };
        ctx.sch_state = Context::STATE_RUNNING;
        self.min_runtime = ctx.sch_runtime as u64;
        slice
    }
}

/// Taking a context off a hart after putting it on leaves the hart as it was:
/// the load is again the priorities of the contexts on the hart.
pub proof fn law_dequeue_undoes_enqueue(h: Hart, this: usize, ctx: Context, state: u8)
    requires
        h.load + ctx.sch_priority <= u32::MAX,
    ensures
        h.enqueued(this, ctx).0.dequeued(h.enqueued(this, ctx).1, state).0 == h,
{
}

} // verus!
