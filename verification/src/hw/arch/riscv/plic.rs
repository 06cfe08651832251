//! The RISC-V platform-level interrupt controller.
use vstd::prelude::*;

verus! {

/// Number of interrupt sources.
pub const PLIC_SOURCES: usize = 1024;

/// Number of contexts (hart and privilege mode pairs).
pub const PLIC_CONTEXTS: usize = 0x3E00;

/// Registers of one context.
#[derive(Copy, Clone)]
pub struct Context {
    /// The context masks every interrupt whose priority is at most this.
    pub priority: u32,
    /// Reading claims the highest priority pending interrupt; writing an id
    /// completes it.
    pub claim_complete: u32,
}

/// Register block of the interrupt controller.
///
/// Interrupt `N` is represented by bit `N mod 32` of word `N / 32` of the
/// pending and enable arrays.
pub struct PLIC {
    priority: Vec<u32>,
    pending: Vec<u32>,
    enable: Vec<[u32; 32]>,
    ctxt: Vec<Context>,
}

/// The bit of interrupt `id` within its word.
pub open spec fn bit_of(id: int) -> u32 {
    (1u32 << ((id % 32) as u32)) as u32
}

/// Whether interrupt `id` is set in the words `w`.
pub open spec fn bit_set(w: Seq<u32>, id: int) -> bool {
    w[id / 32] & bit_of(id) != 0
}

fn bit(id: usize) -> (r: u32)
    ensures
        r == bit_of(id as int),
{
    1u32 << ((id % 32) as u32)
}

proof fn lemma_bit(w: u32, k: u32, j: u32)
    requires
        k < 32,
        j < 32,
    ensures
        (w | (1u32 << k)) & (1u32 << k) != 0,
        (w & !(1u32 << k)) & (1u32 << k) == 0,
        k != j ==> (((w | (1u32 << k)) & (1u32 << j) != 0) == (w & (1u32 << j) != 0)),
        k != j ==> (((w & !(1u32 << k)) & (1u32 << j) != 0) == (w & (1u32 << j) != 0)),
{
    assert((w | (1u32 << k)) & (1u32 << k) != 0) by (bit_vector)
        requires k < 32;
    assert((w & !(1u32 << k)) & (1u32 << k) == 0) by (bit_vector);
    assert(k != j ==> (((w | (1u32 << k)) & (1u32 << j) != 0) == (w & (1u32 << j) != 0)))
        by (bit_vector)
        requires k < 32, j < 32;
    assert(k != j ==> (((w & !(1u32 << k)) & (1u32 << j) != 0) == (w & (1u32 << j) != 0)))
        by (bit_vector)
        requires k < 32, j < 32;
}

impl PLIC {
    /// The register arrays have their sizes: a priority per source, 32
    /// pending words, and the enable words and registers of every context.
    pub open spec fn wf(self) -> bool {
        &&& self.priorities().len() == PLIC_SOURCES
        &&& self.pending_words().len() == 32
        &&& self.enabled_contexts() == PLIC_CONTEXTS
        &&& forall|c: int| 0 <= c < PLIC_CONTEXTS ==> #[trigger] self.enable_words(c).len() == 32
        &&& self.contexts().len() == PLIC_CONTEXTS
    }

    /// Number of contexts with enable words.
    pub closed spec fn enabled_contexts(self) -> nat {
        self.enable@.len()
    }

    /// Priority of each source.
    pub closed spec fn priorities(self) -> Seq<u32> {
        self.priority@
    }

    /// Pending words.
    pub closed spec fn pending_words(self) -> Seq<u32> {
        self.pending@
    }

    /// Enable words of each context.
    pub closed spec fn enable_words(self, context: int) -> Seq<u32> {
        self.enable@[context]@
    }

    /// Registers of each context.
    pub closed spec fn contexts(self) -> Seq<Context> {
        self.ctxt@
    }

    /// A controller in its reset state: every register zero.
    pub fn new() -> (r: Self)
        ensures
            r.wf(),
            forall|i: int| 0 <= i < PLIC_SOURCES ==> #[trigger] r.priorities()[i] == 0,
            forall|i: int| 0 <= i < 32 ==> #[trigger] r.pending_words()[i] == 0,
            forall|c: int, i: int| 0 <= c < PLIC_CONTEXTS && 0 <= i < 32 ==> #[trigger] r.enable_words(c)[i] == 0,
            forall|c: int| 0 <= c < PLIC_CONTEXTS ==> #[trigger] r.contexts()[c].priority == 0
                && r.contexts()[c].claim_complete == 0,
    {
        let mut priority: Vec<u32> = Vec::new();
        while priority.len() < PLIC_SOURCES
            invariant
                priority@.len() <= PLIC_SOURCES,
                forall|i: int| 0 <= i < priority@.len() ==> #[trigger] priority@[i] == 0,
            decreases PLIC_SOURCES - priority@.len(),
        {
            priority.push(0);
        }
        let mut pending: Vec<u32> = Vec::new();
        while pending.len() < 32
            invariant
                pending@.len() <= 32,
                forall|i: int| 0 <= i < pending@.len() ==> #[trigger] pending@[i] == 0,
            decreases 32 - pending@.len(),
        {
            pending.push(0);
        }
        let mut enable: Vec<[u32; 32]> = Vec::new();
        let mut ctxt: Vec<Context> = Vec::new();
        while enable.len() < PLIC_CONTEXTS
            invariant
                enable@.len() <= PLIC_CONTEXTS,
                ctxt@.len() == enable@.len(),
                forall|c: int, i: int| 0 <= c < enable@.len() && 0 <= i < 32 ==> #[trigger] enable@[c]@[i] == 0,
                forall|c: int| 0 <= c < ctxt@.len() ==> #[trigger] ctxt@[c].priority == 0
                    && ctxt@[c].claim_complete == 0,
            decreases PLIC_CONTEXTS - enable@.len(),
        {
            let words = [0u32; 32];
            assert(forall|i: int| 0 <= i < 32 ==> words@[i] == 0);
            enable.push(words);
            ctxt.push(Context { priority: 0, claim_complete: 0 });
        }
        PLIC { priority, pending, enable, ctxt }
    }

    pub fn set_priority(&mut self, id: usize, pri: u32)
        requires
            old(self).wf(),
            id < PLIC_SOURCES,
        ensures
            final(self).wf(),
            final(self).priorities() == old(self).priorities().update(id as int, pri),
            final(self).pending_words() == old(self).pending_words(),
            forall|c: int| #[trigger] final(self).enable_words(c) == old(self).enable_words(c),
            final(self).contexts() == old(self).contexts(),
    {
        self.priority.set(id, pri);
    }

    pub fn get_priority(&self, id: usize) -> (r: u32)
        requires
            self.wf(),
            id < PLIC_SOURCES,
        ensures
            r == self.priorities()[id as int],
    {
        self.priority[id]
    }

    /// Whether interrupt `id` is pending.
    pub fn is_pending(&self, id: usize) -> (r: bool)
        requires
            self.wf(),
            id < PLIC_SOURCES,
        ensures
            r == bit_set(self.pending_words(), id as int),
    {
        self.pending[id / 32] & bit(id) != 0
    }

    /// Enables interrupt `id` for `context`.
    pub fn enable(&mut self, context: usize, id: usize)
        requires
            old(self).wf(),
            context < PLIC_CONTEXTS,
            id < PLIC_SOURCES,
        ensures
            final(self).wf(),
            bit_set(final(self).enable_words(context as int), id as int),
            forall|j: int| 0 <= j < PLIC_SOURCES && j != id ==> #[trigger] bit_set(final(self).enable_words(context as int), j)
                == bit_set(old(self).enable_words(context as int), j),
            forall|c: int| 0 <= c < PLIC_CONTEXTS && c != context ==> #[trigger] final(self).enable_words(c) == old(self).enable_words(c),
            final(self).priorities() == old(self).priorities(),
            final(self).pending_words() == old(self).pending_words(),
            final(self).contexts() == old(self).contexts(),
    {
        let mut words = self.enable[context];
        let w = words[id / 32];
        words.set(id / 32, w | bit(id));
        self.enable.set(context, words);
        proof {
            assert forall|j: int| 0 <= j < PLIC_SOURCES implies #[trigger] bit_set(self.enable_words(context as int), j)
                == if j == id { true } else { bit_set(old(self).enable_words(context as int), j) } by {
                lemma_bit(w, (id % 32) as u32, (j % 32) as u32);
                if j / 32 == id / 32 {
                    if j != id {
                        assert(j % 32 != id % 32);
                    }
                } else {
                    assert(words@[j / 32] == old(self).enable_words(context as int)[j / 32]);
                }
            }
        }
    }

    /// Disables interrupt `id` for `context`.
    pub fn disable(&mut self, context: usize, id: usize)
        requires
            old(self).wf(),
            context < PLIC_CONTEXTS,
            id < PLIC_SOURCES,
        ensures
            final(self).wf(),
            !bit_set(final(self).enable_words(context as int), id as int),
            forall|j: int| 0 <= j < PLIC_SOURCES && j != id ==> #[trigger] bit_set(final(self).enable_words(context as int), j)
                == bit_set(old(self).enable_words(context as int), j),
            forall|c: int| 0 <= c < PLIC_CONTEXTS && c != context ==> #[trigger] final(self).enable_words(c) == old(self).enable_words(c),
            final(self).priorities() == old(self).priorities(),
            final(self).pending_words() == old(self).pending_words(),
            final(self).contexts() == old(self).contexts(),
    {
        let mut words = self.enable[context];
        let w = words[id / 32];
        words.set(id / 32, w & !bit(id));
        self.enable.set(context, words);
        proof {
            assert forall|j: int| 0 <= j < PLIC_SOURCES implies #[trigger] bit_set(self.enable_words(context as int), j)
                == if j == id { false } else { bit_set(old(self).enable_words(context as int), j) } by {
                lemma_bit(w, (id % 32) as u32, (j % 32) as u32);
                if j / 32 == id / 32 {
                    if j != id {
                        assert(j % 32 != id % 32);
                    }
                } else {
                    assert(words@[j / 32] == old(self).enable_words(context as int)[j / 32]);
                }
            }
        }
    }

    /// Whether interrupt `id` is enabled for `context`.
    pub fn is_enabled(&self, context: usize, id: usize) -> (r: bool)
        requires
            self.wf(),
            context < PLIC_CONTEXTS,
            id < PLIC_SOURCES,
        ensures
            r == bit_set(self.enable_words(context as int), id as int),
    {
        self.enable[context][id / 32] & bit(id) != 0
    }

    pub fn set_priority_threshold(&mut self, context: usize, threshold: u32)
        requires
            old(self).wf(),
            context < PLIC_CONTEXTS,
        ensures
            final(self).wf(),
            final(self).contexts() == old(self).contexts().update(
                context as int,
                Context { priority: threshold, claim_complete: old(self).contexts()[context as int].claim_complete },
            ),
            final(self).priorities() == old(self).priorities(),
            final(self).pending_words() == old(self).pending_words(),
            forall|c: int| #[trigger] final(self).enable_words(c) == old(self).enable_words(c),
    {
        let mut c = self.ctxt[context];
        c.priority = threshold;
        self.ctxt.set(context, c);
    }

    pub fn get_priority_threshold(&mut self, context: usize) -> (r: u32)
        requires
            old(self).wf(),
            context < PLIC_CONTEXTS,
        ensures
            *final(self) == *old(self),
            r == old(self).contexts()[context as int].priority,
    {
        self.ctxt[context].priority
    }

    /// The id of the interrupt the context claims.
    pub fn claim(&self, context: usize) -> (r: u32)
        requires
            self.wf(),
            context < PLIC_CONTEXTS,
        ensures
            r == self.contexts()[context as int].claim_complete,
    {
        self.ctxt[context].claim_complete
    }

    /// Signals that the handler of interrupt `id` is done.
    pub fn complete(&mut self, context: usize, id: u32)
        requires
            old(self).wf(),
            context < PLIC_CONTEXTS,
        ensures
            final(self).wf(),
            final(self).contexts() == old(self).contexts().update(
                context as int,
                Context { priority: old(self).contexts()[context as int].priority, claim_complete: id },
            ),
            final(self).priorities() == old(self).priorities(),
            final(self).pending_words() == old(self).pending_words(),
            forall|c: int| #[trigger] final(self).enable_words(c) == old(self).enable_words(c),
    {
        let mut c = self.ctxt[context];
        c.claim_complete = id;
        self.ctxt.set(context, c);
    }

    /// Marks interrupt `id` pending, as the source does when it signals.
    pub fn raise(&mut self, id: usize)
        requires
            old(self).wf(),
            id < PLIC_SOURCES,
        ensures
            final(self).wf(),
            bit_set(final(self).pending_words(), id as int),
            forall|j: int| 0 <= j < PLIC_SOURCES && j != id ==> #[trigger] bit_set(final(self).pending_words(), j)
                == bit_set(old(self).pending_words(), j),
    {
        let w = self.pending[id / 32];
        self.pending.set(id / 32, w | bit(id));
        proof {
            assert forall|j: int| 0 <= j < PLIC_SOURCES && j != id implies #[trigger] bit_set(self.pending_words(), j)
                == bit_set(old(self).pending_words(), j) by {
                lemma_bit(w, (id % 32) as u32, (j % 32) as u32);
                if j / 32 == id / 32 {
                    assert(j % 32 != id % 32);
                }
            }
            lemma_bit(w, (id % 32) as u32, 0);
        }
    }
}

} // verus!
