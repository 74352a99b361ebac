//! External interrupt controller (PLIC) interface.
//!
//! Models the platform-level interrupt controller's per-source priority,
//! enable and pending state, the global claim threshold, and the
//! claim/complete protocol: claiming a source latches it (it cannot be
//! claimed again) until a matching completion re-arms it.

use vstd::prelude::*;

verus! {

/// Controller state: one priority/enable/pending/claim latch per source,
/// plus the global threshold. Source identifiers index the vectors.
pub struct Plic {
    pub priorities: Vec<u8>,
    pub enabled: Vec<bool>,
    pub pending: Vec<bool>,
    pub claimed: Vec<bool>,
    pub threshold: u8,
}

impl Plic {
    /// All per-source tables cover the same sources.
    pub open spec fn wf(self) -> bool {
        &&& self.enabled@.len() == self.priorities@.len()
        &&& self.pending@.len() == self.priorities@.len()
        &&& self.claimed@.len() == self.priorities@.len()
    }

    /// Number of interrupt sources.
    pub open spec fn sources(self) -> int {
        self.priorities@.len() as int
    }

    /// Source `s` can be claimed: it is pending, enabled, not latched by an
    /// unfinished claim, and its priority exceeds the threshold. A source
    /// with priority 0 can never be claimed, whatever the threshold.
    pub open spec fn candidate(self, s: int) -> bool {
        &&& 0 <= s < self.sources()
        &&& self.pending@[s]
        &&& self.enabled@[s]
        &&& !self.claimed@[s]
        &&& self.priorities@[s] > self.threshold
    }

    /// `s` is the source a claim returns: a candidate of maximal priority,
    /// lowest identifier first among equals.
    pub open spec fn is_best_candidate(self, s: int) -> bool {
        &&& self.candidate(s)
        &&& forall|c: int|
            #[trigger] self.candidate(c) ==> self.priorities@[c] < self.priorities@[s] || (
            self.priorities@[c] == self.priorities@[s] && s <= c)
    }

    /// A controller with `nsources` sources: everything disabled, nothing
    /// pending, every priority 0, threshold 0.
    pub fn new(nsources: usize) -> (r: Plic)
        ensures
            r.wf(),
            r.sources() == nsources,
            r.threshold == 0,
            forall|s: int| 0 <= s < nsources ==> !(#[trigger] r.enabled@[s]),
            forall|s: int| 0 <= s < nsources ==> !(#[trigger] r.pending@[s]),
            forall|s: int| 0 <= s < nsources ==> !(#[trigger] r.claimed@[s]),
            forall|s: int| 0 <= s < nsources ==> #[trigger] r.priorities@[s] == 0,
    {
        let mut priorities: Vec<u8> = Vec::new();
        let mut enabled: Vec<bool> = Vec::new();
        let mut pending: Vec<bool> = Vec::new();
        let mut claimed: Vec<bool> = Vec::new();
        let mut i: usize = 0;
        while i < nsources
            invariant
                i <= nsources,
                priorities@.len() == i,
                enabled@.len() == i,
                pending@.len() == i,
                claimed@.len() == i,
                forall|s: int| 0 <= s < i ==> !(#[trigger] enabled@[s]),
                forall|s: int| 0 <= s < i ==> !(#[trigger] pending@[s]),
                forall|s: int| 0 <= s < i ==> !(#[trigger] claimed@[s]),
                forall|s: int| 0 <= s < i ==> #[trigger] priorities@[s] == 0,
            decreases nsources - i,
        {
            priorities.push(0);
            enabled.push(false);
            pending.push(false);
            claimed.push(false);
            i = i + 1;
        }
        Plic { priorities, enabled, pending, claimed, threshold: 0 }
    }

    /// Masks every source whose priority is at or below `tsh` (only the low
    /// three bits of the requested threshold are kept, as the register has).
    pub fn set_threshold(&mut self, tsh: u8)
        requires
            old(self).wf(),
        ensures
            final(self).wf(),
            final(self).threshold == tsh & 7,
            final(self).priorities@ == old(self).priorities@,
            final(self).enabled@ == old(self).enabled@,
            final(self).pending@ == old(self).pending@,
            final(self).claimed@ == old(self).claimed@,
    {
        self.threshold = tsh & 7;
    }

    /// Lets source `id` interrupt.
    pub fn enable(&mut self, id: usize)
        requires
            old(self).wf(),
            id < old(self).sources(),
        ensures
            final(self).wf(),
            final(self).enabled@ == old(self).enabled@.update(id as int, true),
            final(self).priorities@ == old(self).priorities@,
            final(self).pending@ == old(self).pending@,
            final(self).claimed@ == old(self).claimed@,
            final(self).threshold == old(self).threshold,
    {
        self.enabled[id] = true;
    }

    /// Gates source `id` off.
    pub fn disable(&mut self, id: usize)
        requires
            old(self).wf(),
            id < old(self).sources(),
        ensures
            final(self).wf(),
            final(self).enabled@ == old(self).enabled@.update(id as int, false),
            final(self).priorities@ == old(self).priorities@,
            final(self).pending@ == old(self).pending@,
            final(self).claimed@ == old(self).claimed@,
            final(self).threshold == old(self).threshold,
    {
        self.enabled[id] = false;
    }

    /// Sets the priority of source `id` (only the low three bits are kept,
    /// as the register has).
    pub fn set_priority(&mut self, id: usize, prio: u8)
        requires
            old(self).wf(),
            id < old(self).sources(),
        ensures
            final(self).wf(),
            final(self).priorities@ == old(self).priorities@.update(id as int, prio & 7),
            final(self).enabled@ == old(self).enabled@,
            final(self).pending@ == old(self).pending@,
            final(self).claimed@ == old(self).claimed@,
            final(self).threshold == old(self).threshold,
    {
        self.priorities[id] = prio & 7;
    }

    /// A device asserts its interrupt line: source `id` becomes pending.
    pub fn raise(&mut self, id: usize)
        requires
            old(self).wf(),
            id < old(self).sources(),
        ensures
            final(self).wf(),
            final(self).pending@ == old(self).pending@.update(id as int, true),
            final(self).priorities@ == old(self).priorities@,
            final(self).enabled@ == old(self).enabled@,
            final(self).claimed@ == old(self).claimed@,
            final(self).threshold == old(self).threshold,
    {
        self.pending[id] = true;
    }

    /// Claims the next pending interrupt: the candidate of highest priority
    /// (lowest identifier among equals), or `None` when no source can be
    /// claimed. A claimed source stops being pending and is latched until
    /// `complete` for it is called — a second claim before that cannot
    /// return it again.
    #[verifier::loop_isolation(false)]
    pub fn next(&mut self) -> (r: Option<u32>)
        requires
            old(self).wf(),
            old(self).sources() <= u32::MAX,
        ensures
            final(self).wf(),
            final(self).sources() == old(self).sources(),
            match r {
                Some(id) => {
                    &&& old(self).is_best_candidate(id as int)
                    &&& final(self).pending@ == old(self).pending@.update(id as int, false)
                    &&& final(self).claimed@ == old(self).claimed@.update(id as int, true)
                    &&& final(self).priorities@ == old(self).priorities@
                    &&& final(self).enabled@ == old(self).enabled@
                    &&& final(self).threshold == old(self).threshold
                },
                None => {
                    &&& forall|s: int| !old(self).candidate(s)
                    &&& final(self).pending@ == old(self).pending@
                    &&& final(self).claimed@ == old(self).claimed@
                    &&& final(self).priorities@ == old(self).priorities@
                    &&& final(self).enabled@ == old(self).enabled@
                    &&& final(self).threshold == old(self).threshold
                },
            },
    {
        let n = self.priorities.len();
        let mut best: usize = n;
        let mut s: usize = 0;
        while s < n
            invariant
                s <= n,
                best <= n,
                best < n ==> best < s,
                n == old(self).sources(),
                *self == *old(self),
                best < n ==> self.candidate(best as int),
                best < n ==> forall|c: int|
                    0 <= c < s && #[trigger] self.candidate(c) ==> self.priorities@[c]
                        < self.priorities@[best as int] || (self.priorities@[c]
                        == self.priorities@[best as int] && best <= c),
                best == n ==> forall|c: int| 0 <= c < s ==> !self.candidate(c),
            decreases n - s,
        {
            if self.pending[s] && self.enabled[s] && !self.claimed[s] && self.priorities[s]
                > self.threshold {
                if best == n || self.priorities[s] > self.priorities[best] {
                    best = s;
                }
            }
            s = s + 1;
        }
        if best == n {
            None
        } else {
            self.pending[best] = false;
            self.claimed[best] = true;
            Some(best as u32)
        }
    }

    /// Completion acknowledgement for a claimed source: the latch opens and
    /// the source can fire again once it is next pending.
    pub fn complete(&mut self, id: usize)
        requires
            old(self).wf(),
            id < old(self).sources(),
        ensures
            final(self).wf(),
            final(self).claimed@ == old(self).claimed@.update(id as int, false),
            final(self).priorities@ == old(self).priorities@,
            final(self).enabled@ == old(self).enabled@,
            final(self).pending@ == old(self).pending@,
            final(self).threshold == old(self).threshold,
    {
        self.claimed[id] = false;
    }
}

/// Interrupt bring-up for the console: accept every priority (threshold 0),
/// enable the UART source, and give it priority 1, leaving every other
/// source untouched.
pub fn enable_uart_interrupts(p: &mut Plic, uart_source: usize)
    requires
        old(p).wf(),
        uart_source < old(p).sources(),
    ensures
        final(p).wf(),
        final(p).threshold == 0,
        final(p).enabled@ == old(p).enabled@.update(uart_source as int, true),
        final(p).priorities@ == old(p).priorities@.update(uart_source as int, 1u8),
        final(p).pending@ == old(p).pending@,
        final(p).claimed@ == old(p).claimed@,
{
    p.set_threshold(0);
    p.enable(uart_source);
    p.set_priority(uart_source, 1);
    proof {
        assert(1u8 & 7 == 1u8) by (bit_vector);
        assert(0u8 & 7 == 0u8) by (bit_vector);
    }
}

} // verus!
