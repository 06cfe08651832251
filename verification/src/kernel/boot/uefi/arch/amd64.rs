//! Start of the bootstrap processor on x86-64: interrupt descriptors, the time
//! stamp frequency and the start-up sequence of the other processors.
use vstd::prelude::*;
use crate::kernel::arch::amd64::interrupt::{self, DESCRIPTOR_OFFSET_HIGH_MASK};

verus! {

/// The interrupt descriptor of the handler at address `f` with the descriptor options
/// `options` (see `interrupt::entry`).
pub fn entry(f: u64, options: u32) -> (r: u128)
    ensures
        r == ((options as u128) << 16u128) | ((f as u128) & 0xFFFF) | ((f as u128)
            & DESCRIPTOR_OFFSET_HIGH_MASK),
{
    interrupt::entry(f, options)
}

/// Descriptor options of the handlers the bootstrap processor installs.
pub const HANDLER_OPTIONS: u32 = 0x8E00_0000;

/// The time stamp counter frequency from the time stamp leaf of `cpuid`:
/// the crystal frequency `ecx` times the ratio `ebx / eax`.
pub fn tsc_frequency(eax: u32, ebx: u32, ecx: u32) -> (r: u32)
    requires
        eax != 0,
        ecx * ebx <= u32::MAX,
    ensures
        r == (ecx * ebx) / (eax as int),
{
    ecx * ebx / eax
}

/// Hart status: unknown.
pub const STATUS_UNKNOWN: u32 = 0;
/// Hart status: the hart is being started.
pub const STATUS_PRE_BOOT: u32 = 1;
/// Hart status: the hart finished its start-up.
pub const STATUS_BOOT_COMPLETED: u32 = 3;

/// Interrupt command: assert INIT.
pub const ICR_INIT_ASSERT: u64 = 0xC500;
/// Interrupt command: deassert INIT.
pub const ICR_INIT_DEASSERT: u64 = 0x8500;
/// Interrupt command: STARTUP at the trampoline page.
pub const ICR_STARTUP: u64 = 0x0608;

/// The destination field of an interrupt command to the processor with the
/// given ACPI id: the id shifted up by 24 bits, cut to 32 bits.
pub open spec fn destination(uid: u32) -> u64 {
    ((uid as int * 0x100_0000) % 0x1_0000_0000) as u64
}

/// Where the start-up of one application processor stands.
#[derive(Copy, Clone, Debug, PartialEq, Eq, Structural)]
pub enum ApBootState {
    Start,
    ErrorsCleared,
    InitAsserted,
    InitDeasserted,
    /// Waiting 10 ms after INIT, until the given time stamp.
    AfterInit(u64),
    FirstStartupSent,
    /// Waiting 200 µs after the first STARTUP, until the given time stamp.
    AfterFirstStartup(u64),
    SecondStartupSent,
    /// Waiting 100 ms after the second STARTUP, until the given time stamp.
    AfterSecondStartup(u64),
    Booted,
    Failed,
}

/// What the bootstrap processor does next.
#[derive(Copy, Clone, Debug, PartialEq, Eq, Structural)]
pub enum ApBootAction {
    /// Clear the APIC error status.
    ClearErrors,
    /// Send the interrupt command and wait until it is delivered.
    SendIpi(u64),
    /// Read the time stamp counter again.
    Wait,
    /// Mark the hart's status unknown.
    GiveUp,
    /// Go on with the next processor.
    Next,
}

/// One step of the start-up of the processor with ACPI id `uid`: the state
/// after the step and the action to take, given the time stamp `now`, the
/// hart's status and the time stamp frequency.
pub open spec fn ap_boot_next(s: ApBootState, uid: u32, tsc_frq: u64, now: u64, status: u32) -> (ApBootState, ApBootAction) {
    let dst = destination(uid);
    match s {
        ApBootState::Start => (ApBootState::ErrorsCleared, ApBootAction::ClearErrors),
        ApBootState::ErrorsCleared => (ApBootState::InitAsserted, ApBootAction::SendIpi(ICR_INIT_ASSERT | dst)),
        ApBootState::InitAsserted => (ApBootState::InitDeasserted, ApBootAction::SendIpi(ICR_INIT_DEASSERT | dst)),
        ApBootState::InitDeasserted => (ApBootState::AfterInit((now + tsc_frq / 100) as u64), ApBootAction::Wait),
        ApBootState::AfterInit(d) => if now < d {
            (s, ApBootAction::Wait)
        } else {
            (ApBootState::FirstStartupSent, ApBootAction::SendIpi(ICR_STARTUP | dst))
        },
        ApBootState::FirstStartupSent => (ApBootState::AfterFirstStartup((now + tsc_frq / 5000) as u64), ApBootAction::Wait),
        ApBootState::AfterFirstStartup(d) => if now < d {
            if status == STATUS_BOOT_COMPLETED {
                (ApBootState::Booted, ApBootAction::Next)
            } else {
                (s, ApBootAction::Wait)
            }
        } else {
            (ApBootState::SecondStartupSent, ApBootAction::SendIpi(ICR_STARTUP | dst))
        },
        ApBootState::SecondStartupSent => (ApBootState::AfterSecondStartup((now + tsc_frq / 10) as u64), ApBootAction::Wait),
        ApBootState::AfterSecondStartup(d) => if now < d {
            if status == STATUS_BOOT_COMPLETED {
                (ApBootState::Booted, ApBootAction::Next)
            } else {
                (s, ApBootAction::Wait)
            }
        } else {
            (ApBootState::Failed, ApBootAction::GiveUp)
        },
        ApBootState::Booted => (s, ApBootAction::Next),
        ApBootState::Failed => (s, ApBootAction::Next),
    }
}

/// The deadline a waiting state sets fits in 64 bits.
pub open spec fn ap_boot_step_ok(s: ApBootState, tsc_frq: u64, now: u64) -> bool {
    match s {
        ApBootState::InitDeasserted => now + tsc_frq / 100 <= u64::MAX,
        ApBootState::FirstStartupSent => now + tsc_frq / 5000 <= u64::MAX,
        ApBootState::SecondStartupSent => now + tsc_frq / 10 <= u64::MAX,
        _ => true,
    }
}

/// Takes one step of the start-up sequence (see `ap_boot_next`): INIT
/// asserted and deasserted, 10 ms, a first STARTUP, up to 200 µs for the
/// hart to report, a second STARTUP, up to 100 ms, then failure.
pub fn ap_boot_step(s: ApBootState, uid: u32, tsc_frq: u64, now: u64, status: u32) -> (r: (ApBootState, ApBootAction))
    requires
        ap_boot_step_ok(s, tsc_frq, now),
    ensures
        r == ap_boot_next(s, uid, tsc_frq, now, status),
{
    let dst = ap_destination(uid);
    match s {
        ApBootState::Start => (ApBootState::ErrorsCleared, ApBootAction::ClearErrors),
        ApBootState::ErrorsCleared => (ApBootState::InitAsserted, ApBootAction::SendIpi(ICR_INIT_ASSERT | dst)),
        ApBootState::InitAsserted => (ApBootState::InitDeasserted, ApBootAction::SendIpi(ICR_INIT_DEASSERT | dst)),
        ApBootState::InitDeasserted => (ApBootState::AfterInit(now + tsc_frq / 100), ApBootAction::Wait),
        ApBootState::AfterInit(d) => if now < d {
            (s, ApBootAction::Wait)
        } else {
            (ApBootState::FirstStartupSent, ApBootAction::SendIpi(ICR_STARTUP | dst))
        },
        ApBootState::FirstStartupSent => (ApBootState::AfterFirstStartup(now + tsc_frq / 5000), ApBootAction::Wait),
        ApBootState::AfterFirstStartup(d) => if now < d {
            if status == STATUS_BOOT_COMPLETED {
                (ApBootState::Booted, ApBootAction::Next)
            } else {
                (s, ApBootAction::Wait)
            }
        } else {
            (ApBootState::SecondStartupSent, ApBootAction::SendIpi(ICR_STARTUP | dst))
        },
        ApBootState::SecondStartupSent => (ApBootState::AfterSecondStartup(now + tsc_frq / 10), ApBootAction::Wait),
        ApBootState::AfterSecondStartup(d) => if now < d {
            if status == STATUS_BOOT_COMPLETED {
                (ApBootState::Booted, ApBootAction::Next)
            } else {
                (s, ApBootAction::Wait)
            }
        } else {
            (ApBootState::Failed, ApBootAction::GiveUp)
        },
        ApBootState::Booted => (s, ApBootAction::Next),
        ApBootState::Failed => (s, ApBootAction::Next),
    }
}

/// The destination field for the processor with ACPI id `uid`.
fn ap_destination(uid: u32) -> (r: u64)
    ensures
        r == destination(uid),
{
    let d = uid << 24u32;
    assert(uid << 24u32 == ((uid as int * 0x100_0000) % 0x1_0000_0000) as u32) by (bit_vector);
    d as u64
}

/// The interrupt descriptor of the handler at `f` with the descriptor
/// options `options`, as `interrupt::entry` makes it.
pub open spec fn entry_value(f: u64, options: u32) -> u128 {
    ((options as u128) << 16u128) | ((f as u128) & 0xFFFF) | ((f as u128) & DESCRIPTOR_OFFSET_HIGH_MASK)
}

/// The interrupt descriptor table `idt` after a gate with the handler
/// options is installed for each `(vector, handler address)` of `handlers`,
/// in turn.
pub open spec fn idt_with(idt: Seq<u128>, handlers: Seq<(usize, u64)>) -> Seq<u128>
    decreases handlers.len(),
{
    if handlers.len() == 0 {
        idt
    } else {
        idt_with(idt, handlers.drop_last()).update(
            handlers.last().0 as int,
            entry_value(handlers.last().1, HANDLER_OPTIONS),
        )
    }
}

/// Fills the descriptor tables of the bootstrap processor: the null, code
/// and data segment words, each stored in the first entry of `gdt` in turn
/// (so the data segment stays), and an interrupt gate in `idt` for each
/// `(vector, handler address)` of `handlers`.
pub fn setup_descriptor_tables(gdt: &mut [u64; 3], idt: &mut [u128; 256], handlers: &[(usize, u64)])
    requires
        forall|k: int| 0 <= k < handlers@.len() ==> (#[trigger] handlers@[k]).0 < 256,
    ensures
        final(gdt)@ == old(gdt)@.update(0, 0x0000_9200_0000_0000u64),
        final(idt)@ == idt_with(old(idt)@, handlers@),
{
    gdt.set(0, 0x0000_0000_0000_0000);
    gdt.set(0, 0x0020_9A00_0000_0000);
    gdt.set(0, 0x0000_9200_0000_0000);
    let mut k: usize = 0;
    while k < handlers.len()
        invariant
            k <= handlers@.len(),
            idt@.len() == 256,
            forall|j: int| 0 <= j < handlers@.len() ==> (#[trigger] handlers@[j]).0 < 256,
            idt@ == idt_with(old(idt)@, handlers@.take(k as int)),
        decreases handlers@.len() - k,
    {
        let (vector, handler) = handlers[k];
        let e = interrupt::entry(handler, HANDLER_OPTIONS);
        idt.set(vector, e);
        proof {
            let t = handlers@.take(k + 1);
            assert(t.drop_last() =~= handlers@.take(k as int));
            assert(t.last() == handlers@[k as int]);
        }
        k = k + 1;
    }
    assert(handlers@.take(handlers@.len() as int) =~= handlers@);
}

/// A processor that reports its start-up complete while the bootstrap
/// processor waits after either STARTUP, before the deadline, is booted and
/// the next processor follows.
pub proof fn law_ap_boot_completion(s: ApBootState, d: u64, uid: u32, tsc_frq: u64, now: u64)
    requires
        s == ApBootState::AfterFirstStartup(d) || s == ApBootState::AfterSecondStartup(d),
        now < d,
    ensures
        ap_boot_next(s, uid, tsc_frq, now, STATUS_BOOT_COMPLETED) == (ApBootState::Booted, ApBootAction::Next),
{
}

/// A processor is given up only when the wait after the second STARTUP has
/// reached its deadline; before any deadline a processor that has not
/// reported keeps the bootstrap processor waiting in the same state.
pub proof fn law_ap_boot_gives_up_at_the_deadline(
    s: ApBootState,
    d: u64,
    uid: u32,
    tsc_frq: u64,
    now: u64,
    status: u32,
)
    ensures
        ap_boot_next(s, uid, tsc_frq, now, status).1 == ApBootAction::GiveUp ==> (s
            is AfterSecondStartup),
        s == ApBootState::AfterSecondStartup(d) ==> (ap_boot_next(s, uid, tsc_frq, now, status).1
            == ApBootAction::GiveUp <==> now >= d),
        ap_boot_next(s, uid, tsc_frq, now, status).1 == ApBootAction::GiveUp ==> ap_boot_next(
            s,
            uid,
            tsc_frq,
            now,
            status,
        ).0 == ApBootState::Failed,
        now < d && (s == ApBootState::AfterInit(d) || ((s == ApBootState::AfterFirstStartup(d) || s
            == ApBootState::AfterSecondStartup(d)) && status != STATUS_BOOT_COMPLETED)) ==> ap_boot_next(
            s,
            uid,
            tsc_frq,
            now,
            status,
        ) == (s, ApBootAction::Wait),
{
}

/// The start-up sequence of one processor, step by step from the start:
/// clear the APIC errors, assert and deassert INIT at the processor (its id
/// in the top byte of the command's low 32 bits), wait 10 ms, send a
/// STARTUP, wait up to 200 µs, send a second STARTUP, wait up to 100 ms;
/// the waits count time stamps at `tsc_frq` per second.
pub proof fn law_ap_boot_sequence(uid: u32, tsc_frq: u64, now: u64, status: u32)
    requires
        now + tsc_frq / 10 <= u64::MAX,
    ensures
        ap_boot_next(ApBootState::Start, uid, tsc_frq, now, status) == (ApBootState::ErrorsCleared,
            ApBootAction::ClearErrors),
        ap_boot_next(ApBootState::ErrorsCleared, uid, tsc_frq, now, status) == (ApBootState::InitAsserted,
            ApBootAction::SendIpi(0xC500u64 | (((uid as int * 0x100_0000) % 0x1_0000_0000) as u64))),
        ap_boot_next(ApBootState::InitAsserted, uid, tsc_frq, now, status) == (ApBootState::InitDeasserted,
            ApBootAction::SendIpi(0x8500u64 | (((uid as int * 0x100_0000) % 0x1_0000_0000) as u64))),
        ap_boot_next(ApBootState::InitDeasserted, uid, tsc_frq, now, status) == (ApBootState::AfterInit(
            (now + tsc_frq / 100) as u64), ApBootAction::Wait),
        forall|d: u64| now >= d ==> #[trigger] ap_boot_next(ApBootState::AfterInit(d), uid, tsc_frq, now, status)
            == (ApBootState::FirstStartupSent, ApBootAction::SendIpi(0x0608u64 | (((uid as int * 0x100_0000)
            % 0x1_0000_0000) as u64))),
        ap_boot_next(ApBootState::FirstStartupSent, uid, tsc_frq, now, status) == (
        ApBootState::AfterFirstStartup((now + tsc_frq / 5000) as u64), ApBootAction::Wait),
        forall|d: u64| now >= d ==> #[trigger] ap_boot_next(ApBootState::AfterFirstStartup(d), uid, tsc_frq, now, status)
            == (ApBootState::SecondStartupSent, ApBootAction::SendIpi(0x0608u64 | (((uid as int * 0x100_0000)
            % 0x1_0000_0000) as u64))),
        ap_boot_next(ApBootState::SecondStartupSent, uid, tsc_frq, now, status) == (
        ApBootState::AfterSecondStartup((now + tsc_frq / 10) as u64), ApBootAction::Wait),
{
}

} // verus!
