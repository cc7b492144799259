//! Connecting a stream's ports to the system's ports: port `i` goes to the
//! `i`-th system port found, in declaration order, until either list ends. A
//! failed connection is recorded and the next pair is still tried.
use vstd::prelude::*;

verus! {

/// Positions of the outcomes equal to `value`, in order.
pub open spec fn positions_of(outcomes: Seq<bool>, value: bool) -> Seq<usize>
    decreases outcomes.len(),
{
    if outcomes.len() == 0 {
        Seq::empty()
    } else {
        let rest = positions_of(outcomes.drop_last(), value);
        if outcomes.last() == value {
            rest.push((outcomes.len() - 1) as usize)
        } else {
            rest
        }
    }
}

/// The integers `lo, lo + 1, ..., hi - 1`.
pub open spec fn index_range(lo: nat, hi: nat) -> Seq<usize> {
    Seq::new((hi - lo) as nat, |k: int| (lo + k) as usize)
}

/// Progress of wiring a stream's declared ports to the system ports found.
pub struct PortWiring {
    declared: usize,
    available: usize,
    next: usize,
    connected: Vec<usize>,
    failed: Vec<usize>,
    outcomes: Ghost<Seq<bool>>,
}

impl PortWiring {
    /// Number of ports the stream declared.
    pub closed spec fn declared(&self) -> nat {
        self.declared as nat
    }

    /// Number of system ports found.
    pub closed spec fn available(&self) -> nat {
        self.available as nat
    }

    /// Outcome of each connection tried so far, in order.
    pub closed spec fn outcomes(&self) -> Seq<bool> {
        self.outcomes@
    }

    /// Number of port pairs to try: the shorter of the two lists.
    pub open spec fn pairs(&self) -> nat {
        if self.declared() <= self.available() {
            self.declared()
        } else {
            self.available()
        }
    }

    pub closed spec fn wf(&self) -> bool {
        &&& self.next == self.outcomes@.len()
        &&& self.next <= self.pairs()
        &&& self.connected@ == positions_of(self.outcomes@, true)
        &&& self.failed@ == positions_of(self.outcomes@, false)
    }

    /// Wiring of `declared` stream ports against `available` system ports,
    /// with nothing tried yet.
    pub fn new(declared: usize, available: usize) -> (r: PortWiring)
        ensures
            r.wf(),
            r.declared() == declared,
            r.available() == available,
            r.outcomes() == Seq::<bool>::empty(),
    {
        PortWiring {
            declared,
            available,
            next: 0,
            connected: Vec::new(),
            failed: Vec::new(),
            outcomes: Ghost(Seq::empty()),
        }
    }

    /// The next pair to connect: `Some(i)` asks to connect declared port `i`
    /// to system port `i`; `None` once either list is used up.
    pub fn next_connection(&self) -> (r: Option<usize>)
        requires
            self.wf(),
        ensures
            self.outcomes().len() < self.pairs() ==> r == Some(self.outcomes().len() as usize),
            self.outcomes().len() >= self.pairs() ==> r.is_none(),
    {
        let pairs = if self.declared <= self.available {
            self.declared
        } else {
            self.available
        };
        if self.next < pairs {
            Some(self.next)
        } else {
            None
        }
    }

    /// Records whether the pair asked for by `next_connection` was connected.
    pub fn record(&mut self, connected: bool)
        requires
            old(self).wf(),
            old(self).outcomes().len() < old(self).pairs(),
        ensures
            final(self).wf(),
            final(self).declared() == old(self).declared(),
            final(self).available() == old(self).available(),
            final(self).outcomes() == old(self).outcomes().push(connected),
    {
        if connected {
            self.connected.push(self.next);
        } else {
            self.failed.push(self.next);
        }
        self.next = self.next + 1;
        proof {
            let o = self.outcomes@.push(connected);
            assert(o.drop_last() =~= self.outcomes@);
            self.outcomes@ = o;
        }
    }

    /// Declared ports connected, in declaration order.
    pub fn connected(&self) -> (r: Vec<usize>)
        requires
            self.wf(),
        ensures
            r@ == positions_of(self.outcomes(), true),
    {
        self.connected.clone()
    }

    /// Declared ports whose connection failed, in declaration order.
    pub fn failed(&self) -> (r: Vec<usize>)
        requires
            self.wf(),
        ensures
            r@ == positions_of(self.outcomes(), false),
    {
        self.failed.clone()
    }

    /// Declared ports left without a system port to connect to.
    pub fn unmatched(&self) -> (r: Vec<usize>)
        ensures
            r@ == index_range(self.pairs(), self.declared()),
    {
        let pairs = if self.declared <= self.available {
            self.declared
        } else {
            self.available
        };
        let mut r: Vec<usize> = Vec::new();
        let mut i: usize = pairs;
        while i < self.declared
            invariant
                pairs <= i <= self.declared,
                pairs == self.pairs(),
                r@ == index_range(pairs as nat, i as nat),
            decreases self.declared - i,
        {
            r.push(i);
            i = i + 1;
            assert(r@ =~= index_range(pairs as nat, i as nat));
        }
        r
    }
}

proof fn lemma_positions_all(outcomes: Seq<bool>)
    requires
        forall|k: int| 0 <= k < outcomes.len() ==> outcomes[k],
        outcomes.len() <= usize::MAX,
    ensures
        positions_of(outcomes, true) == index_range(0, outcomes.len()),
        positions_of(outcomes, false) == Seq::<usize>::empty(),
    decreases outcomes.len(),
{
    if outcomes.len() > 0 {
        lemma_positions_all(outcomes.drop_last());
        assert(positions_of(outcomes, true) =~= index_range(0, outcomes.len()));
    }
}

/// When every connection tried succeeded and the wiring is finished, exactly
/// the first `pairs` declared ports were connected, in declaration order, no
/// failure was recorded, and the declared ports past the system ports are
/// reported as left unmatched.
pub proof fn lemma_finished_wiring(w: PortWiring)
    requires
        w.wf(),
        w.outcomes().len() == w.pairs(),
        forall|k: int| 0 <= k < w.outcomes().len() ==> w.outcomes()[k],
    ensures
        positions_of(w.outcomes(), true) == index_range(0, w.pairs()),
        positions_of(w.outcomes(), false) == Seq::<usize>::empty(),
        index_range(w.pairs(), w.declared()).len() == w.declared() - w.pairs(),
{
    lemma_positions_all(w.outcomes());
}

} // verus!
