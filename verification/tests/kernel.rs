use core::cmp::Ordering;
use lib::kernel::ctx::Context;
use lib::fw::uefi::system_table::{dispatch_table, TRAMPOLINE_STRIDE};
use lib::kernel::arch::amd64::interrupt::entry;
use lib::kernel::arch::amd64::{Hart, Timer, TimerProgram, TIMER_DIVIDE_BY_1};
use lib::kernel::log::{LogBuf, LogEntry};
use lib::kernel::misc::list::LinkedList;
use lib::kernel::misc::trie::TrieNode;
use lib::kernel::misc::tree::{Tree, TreeNode};
use lib::kernel::misc::utils::get_mem_unit;

#[test]
fn trie_get_after_insert() {
    let mut t: TrieNode<u32> = TrieNode::new('/');
    assert_eq!(t.get("dev/sda"), None);
    assert_eq!(t.insert("dev/sda", 1), None);
    assert_eq!(t.insert("dev/sdb", 2), None);
    assert_eq!(t.get("dev/sda"), Some(&1));
    assert_eq!(t.get("dev/sdb"), Some(&2));
    assert_eq!(t.get("dev"), None);
    assert_eq!(t.insert("dev/sda", 3).map(|b| *b), Some(1));
    assert_eq!(t.get("dev/sda"), Some(&3));
}

#[test]
fn trie_remove_leaves_the_other_paths() {
    let mut t: TrieNode<u32> = TrieNode::new('/');
    t.insert("a", 1);
    t.insert("ab", 2);
    t.insert("ac", 3);
    t.remove("ab");
    assert_eq!(t.get("ab"), None);
    assert_eq!(t.get("a"), Some(&1));
    assert_eq!(t.get("ac"), Some(&3));
    t.remove("a");
    assert_eq!(t.get("a"), None);
    assert_eq!(t.get("ac"), Some(&3));
    t.remove("zz");
    assert_eq!(t.get("ac"), Some(&3));
}

#[test]
fn empty_list() {
    let mut l: LinkedList<u32, ()> = LinkedList::new();
    assert!(l.is_empty());
    assert_eq!(l.front(), None);
    assert_eq!(l.pop_front(), None);
    l.rotate_right(3);
    assert!(l.is_empty());
    let l2: LinkedList<u8, u32> = LinkedList::new_in(7);
    assert!(l2.is_empty());
}

fn leaf(v: u32) -> Option<Box<TreeNode<u32>>> {
    Some(Box::new(TreeNode { left: None, right: None, data: v }))
}

#[test]
fn tree_search() {
    let t = Tree { root: Some(Box::new(TreeNode { left: leaf(10), right: leaf(30), data: 20 })) };
    assert_eq!(t.find(|x: &u32| 30.cmp(x)), Some(&30));
    assert_eq!(t.find(|x: &u32| 10.cmp(x)), Some(&10));
    assert_eq!(t.find(|x: &u32| 20.cmp(x)), Some(&20));
    assert_eq!(t.find(|x: &u32| 25.cmp(x)), None);
    assert!(Tree::<u32>::new().find(|_: &u32| Ordering::Equal).is_none());
}

fn log_entry(event: u16) -> LogEntry {
    LogEntry { event, hart: 0, ctx: 0, time: 0, param0: 0, param1: 0, param2: 0, param3: 0 }
}

#[test]
fn log_wraps_around() {
    let mut l = LogBuf { buf: vec![log_entry(0); 2], ptr: 0 };
    l.log(log_entry(1));
    l.log(log_entry(2));
    assert_eq!(l.ptr, 2);
    l.log(log_entry(3));
    assert_eq!(l.ptr, 1);
    assert_eq!(l.buf[0].event, 3);
    assert_eq!(l.buf[1].event, 2);
}

#[test]
fn memory_units() {
    assert_eq!(get_mem_unit(1536), ("KB", 2));
    assert_eq!(get_mem_unit(1535), ("KB", 1));
    assert_eq!(get_mem_unit(0x100000), ("MB", 1));
    assert_eq!(get_mem_unit(3 * 0x40000000 + 0x20000000), ("GB", 4));
    assert_eq!(get_mem_unit(0x10000000000), ("TB", 1));
}

#[test]
fn apic_timer_program() {
    let h = Hart { timer_frq: 1_000_000_000, arch_id: 0 };
    // 1 ms: a thousandth of the frequency
    assert_eq!(
        h.timer_set(1_000_000_000),
        TimerProgram { divide_config: TIMER_DIVIDE_BY_1, initial_count: 1_000_000 }
    );
    let t = Timer { frq: 100 };
    assert_eq!(t.set(3_000_000_000), TimerProgram { divide_config: TIMER_DIVIDE_BY_1, initial_count: 0 });
}

#[test]
fn arm_and_riscv_timers() {
    let p = lib::kernel::arch::aarch64::Timer.set(1_000_000, 1_000_000);
    assert_eq!(p, lib::kernel::arch::aarch64::TimerProgram { tval: 1, ctl: 1 });
    let t = lib::kernel::arch::riscv64::Timer { frq: 10_000_000 };
    assert_eq!(t.set(500, 1_000_000), 510);
}

#[test]
fn interrupt_descriptor_layout() {
    let d = entry(0x1122_3344_5566_7788, 0x8E00_0000);
    assert_eq!(d & 0xFFFF, 0x7788);
    // the options cover the middle bits of the address
    assert_eq!((d >> 16) & 0xFFFF_FFFF, 0x8E00_0000);
    assert_eq!(d >> 48, 0x1122);
}

#[test]
fn trampoline_addresses() {
    let mut p = 0x1000;
    let t = dispatch_table(&mut p, 3);
    assert_eq!(t, vec![0x1000, 0x1000 + TRAMPOLINE_STRIDE, 0x1000 + 2 * TRAMPOLINE_STRIDE]);
    assert_eq!(p, 0x1000 + 3 * TRAMPOLINE_STRIDE);
}

fn context(priority: u8) -> Context {
    Context {
        id: 1,
        flags: 0,
        parent: 0,
        sibling_prev: 0,
        sibling_next: 0,
        children: 0,
        kernel_stack: 0,
        time_offset: 0,
        sch_state: Context::STATE_BLOCKED,
        sch_priority: priority,
        sch_runtime: 77,
        sch_affinity: [0; 128],
        sch_hart: 0,
        sch_parent: 0,
        sch_left: 0,
        sch_right: 0,
        cid_counter: 0,
        int_mask: 0,
        mem_table: 0,
        lim_cpu_time: 0,
        lim_mem_mapped: 0,
        lim_mem_present: 0,
        lim_mem_swapped: 0,
        lim_io_ops_ram: 0,
        lim_io_ops_msm: 0,
        lim_io_rw_ram: 0,
        lim_io_rw_msm: 0,
        lim_io_time_ram: 0,
        lim_io_time_msm: 0,
        lim_open_rds: 0,
        lim_threats: 0,
        usg_cpu_time: 0,
        usg_mem_mapped: 0,
        usg_mem_present: 0,
        usg_mem_swapped: 0,
        usg_io_ops_ram: 0,
        usg_io_ops_msm: 0,
        usg_io_rw_ram: 0,
        usg_io_rw_msm: 0,
        usg_io_time_ram: 0,
        usg_io_time_msm: 0,
        usg_open_rds: 0,
        usg_threads: 0,
    }
}

fn hart(load: u32) -> lib::kernel::hart::Hart {
    lib::kernel::hart::Hart {
        id: 0,
        status: 0,
        flags: 0,
        timer: Timer { frq: 1 },
        int: Hart { timer_frq: 1, arch_id: 0 },
        preferred_node: 0,
        current: Some(0x1000),
        queue: None,
        migration_queue: 0,
        load,
        latency: 600,
        runtime: 0,
        min_load: 0,
        min_latency: 0,
        min_granulity: 10,
        min_runtime: 0x1_0000_0005,
    }
}

#[test]
fn enqueue_then_dequeue_restores_the_load() {
    let mut h = hart(5);
    let mut c = context(3);
    h.enqueue(0x4000, &mut c);
    assert_eq!(h.load, 8);
    assert_eq!(c.sch_hart, 0x4000);
    assert_eq!(c.sch_state, Context::STATE_READY);
    assert_eq!(c.sch_runtime, 5);
    h.dequeue(&mut c, Context::STATE_BLOCKED);
    assert_eq!(h.load, 5);
    assert_eq!(c.sch_state, Context::STATE_BLOCKED);
}

#[test]
fn schedule_time_slice() {
    let mut h = hart(4);
    let mut c = context(3);
    // 600 * 2 / 4 = 300, above the least granularity
    assert_eq!(h.schedule(&mut c, 2), 300);
    assert_eq!(c.sch_state, Context::STATE_RUNNING);
    assert_eq!(h.min_runtime, 77);
    // 600 * 0 / 4 = 0: the least granularity
    assert_eq!(h.schedule(&mut c, 0), 10);
}

#[test]
fn preempt_adds_the_weighted_share_of_the_ticks() {
    let h = hart(4);
    let mut c = context(3);
    let before = c.sch_runtime;
    // 100 ticks * weight 6 / load 4 = 150
    h.preempt(&mut c, 100, 6, Context::STATE_READY);
    assert_eq!(c.sch_runtime, before + 150);
    assert_eq!(c.sch_state, Context::STATE_READY);
}
