//! The startup barrier: emits wait until every listener being bound has subscribed.
//!
//! Binding a listener registers it at the barrier and hands it a ticket; once the
//! listener's task has subscribed to the ring it hands the ticket back. An emit
//! may publish only when no ticket is outstanding, so no listener whose bind was
//! registered before the emit misses the event.
use vstd::prelude::*;

verus! {

/// What the barrier knows: the tickets of listeners still subscribing, and how
/// many tickets it has issued so far (the next ticket's number).
pub struct BarrierView {
    pub pending: Set<nat>,
    pub issued: nat,
}

/// One operation on the barrier.
pub enum BarrierOp {
    /// A bind is registered; it receives the next ticket.
    Register,
    /// The listener holding this ticket has subscribed.
    Subscribe(nat),
    /// An emit asks whether it may publish.
    Check,
}

/// The barrier before anything happened.
pub open spec fn barrier_start() -> BarrierView {
    BarrierView { pending: Set::empty(), issued: 0 }
}

/// The effect of one operation on the barrier.
pub open spec fn barrier_step(barrier: BarrierView, op: BarrierOp) -> BarrierView {
    match op {
        BarrierOp::Register => BarrierView {
            pending: barrier.pending.insert(barrier.issued),
            issued: barrier.issued + 1,
        },
        BarrierOp::Subscribe(ticket) => BarrierView {
            pending: barrier.pending.remove(ticket),
            issued: barrier.issued,
        },
        BarrierOp::Check => barrier,
    }
}

/// An emit may publish exactly when no listener is still subscribing.
pub open spec fn may_publish_spec(barrier: BarrierView) -> bool {
    barrier.pending == Set::<nat>::empty()
}

/// The barrier after a sequence of operations.
pub open spec fn barrier_after(ops: Seq<BarrierOp>) -> BarrierView
    decreases ops.len(),
{
    if ops.len() == 0 {
        barrier_start()
    } else {
        barrier_step(barrier_after(ops.drop_last()), ops.last())
    }
}

/// Whether the `i`-th operation is a check that lets the emit publish.
pub open spec fn publish_allowed_at(ops: Seq<BarrierOp>, i: int) -> bool {
    ops[i] is Check && may_publish_spec(barrier_after(ops.take(i)))
}

/// The ticket handed out by the `j`-th operation, when it is a registration.
pub open spec fn ticket_of(ops: Seq<BarrierOp>, j: int) -> nat {
    barrier_after(ops.take(j)).issued
}

proof fn lemma_barrier_step(ops: Seq<BarrierOp>, i: int)
    requires
        0 <= i < ops.len(),
    ensures
        barrier_after(ops.take(i + 1)) == barrier_step(barrier_after(ops.take(i)), ops[i]),
{
    assert(ops.take(i + 1).drop_last() =~= ops.take(i));
}

proof fn lemma_ticket_stays_pending(ops: Seq<BarrierOp>, j: int, m: int)
    requires
        0 <= j < m <= ops.len(),
        ops[j] is Register,
        forall|k: int| j < k < m ==> ops[k] != BarrierOp::Subscribe(ticket_of(ops, j)),
    ensures
        barrier_after(ops.take(m)).pending.contains(ticket_of(ops, j)),
        ticket_of(ops, j) < barrier_after(ops.take(m)).issued,
    decreases m - j,
{
    if m == j + 1 {
        lemma_barrier_step(ops, j);
    } else {
        lemma_ticket_stays_pending(ops, j, m - 1);
        lemma_barrier_step(ops, m - 1);
    }
}

/// An emit is let through only when no listener is still subscribing, and then
/// every listener whose bind was registered before it has already subscribed:
/// for every registration before an allowed publish, the ticket it received
/// was handed back between the two.
pub proof fn law_no_listener_misses_a_publish(ops: Seq<BarrierOp>)
    ensures
        forall|i: int|
            0 <= i < ops.len() && #[trigger] publish_allowed_at(ops, i) ==> barrier_after(
                ops.take(i),
            ).pending == Set::<nat>::empty(),
        forall|j: int, i: int|
            #![trigger ops[j], publish_allowed_at(ops, i)]
            0 <= j < i < ops.len() && ops[j] is Register && publish_allowed_at(ops, i) ==> exists|
                k: int,
            |
                j < k < i && ops[k] == BarrierOp::Subscribe(ticket_of(ops, j)),
{
    assert forall|j: int, i: int|
        #![trigger ops[j], publish_allowed_at(ops, i)]
        0 <= j < i < ops.len() && ops[j] is Register && publish_allowed_at(ops, i) implies exists|
        k: int,
    |
        j < k < i && ops[k] == BarrierOp::Subscribe(ticket_of(ops, j)) by {
        if !exists|k: int| j < k < i && ops[k] == BarrierOp::Subscribe(ticket_of(ops, j)) {
            lemma_ticket_stays_pending(ops, j, i);
            assert(barrier_after(ops.take(i)).pending.contains(ticket_of(ops, j)));
        }
    }
}

proof fn lemma_pending_has_open_registration(ops: Seq<BarrierOp>, m: int)
    requires
        0 <= m <= ops.len(),
    ensures
        forall|t: nat|
            #[trigger] barrier_after(ops.take(m)).pending.contains(t) ==> exists|j: int|
                0 <= j < m && ops[j] is Register && ticket_of(ops, j) == t && forall|k: int|
                    j < k < m ==> ops[k] != BarrierOp::Subscribe(t),
    decreases m,
{
    if m == 0 {
        assert(ops.take(0) =~= Seq::<BarrierOp>::empty());
    } else {
        lemma_pending_has_open_registration(ops, m - 1);
        lemma_barrier_step(ops, m - 1);
        assert forall|t: nat|
            #[trigger] barrier_after(ops.take(m)).pending.contains(t) implies exists|j: int|
            0 <= j < m && ops[j] is Register && ticket_of(ops, j) == t && forall|k: int|
                j < k < m ==> ops[k] != BarrierOp::Subscribe(t) by {
            let before = barrier_after(ops.take(m - 1));
            if before.pending.contains(t) {
                let j = choose|j: int|
                    0 <= j < m - 1 && ops[j] is Register && ticket_of(ops, j) == t && forall|k: int|
                        j < k < m - 1 ==> ops[k] != BarrierOp::Subscribe(t);
                assert(ops[m - 1] != BarrierOp::Subscribe(t));
                assert(forall|k: int| j < k < m ==> ops[k] != BarrierOp::Subscribe(t));
            } else {
                assert(ops[m - 1] is Register && t == before.issued);
                assert(ticket_of(ops, m - 1) == t);
            }
        }
    }
}

/// Once every ticket that was issued has been handed back, in whatever order,
/// nothing is pending any more and emits may publish: handing back one ticket
/// never depends on which other tickets are still outstanding.
pub proof fn law_every_handed_back_ticket_releases(ops: Seq<BarrierOp>)
    requires
        forall|j: int|
            #![trigger ops[j]]
            0 <= j < ops.len() && ops[j] is Register ==> exists|k: int|
                j < k < ops.len() && ops[k] == BarrierOp::Subscribe(ticket_of(ops, j)),
    ensures
        barrier_after(ops).pending == Set::<nat>::empty(),
        forall|t: nat| !#[trigger] barrier_after(ops).pending.contains(t),
{
    lemma_pending_has_open_registration(ops, ops.len() as int);
    assert(ops.take(ops.len() as int) =~= ops);
    assert forall|t: nat| !#[trigger] barrier_after(ops).pending.contains(t) by {
        if barrier_after(ops).pending.contains(t) {
            let j = choose|j: int|
                0 <= j < ops.len() && ops[j] is Register && ticket_of(ops, j) == t && forall|k: int|
                    j < k < ops.len() ==> ops[k] != BarrierOp::Subscribe(t);
            let k = choose|k: int| j < k < ops.len() && ops[k] == BarrierOp::Subscribe(ticket_of(ops, j));
        }
    }
    assert(barrier_after(ops).pending =~= Set::<nat>::empty());
}

/// Handing a ticket back always takes it off the pending set and touches no
/// other ticket, whatever else is pending; registering adds exactly the new
/// ticket, which was not pending before.
pub proof fn law_hand_back_removes_exactly_its_ticket(barrier: BarrierView, ticket: nat)
    requires
        forall|t: nat| #[trigger] barrier.pending.contains(t) ==> t < barrier.issued,
    ensures
        !barrier_step(barrier, BarrierOp::Subscribe(ticket)).pending.contains(ticket),
        forall|t: nat|
            t != ticket ==> (#[trigger] barrier_step(barrier, BarrierOp::Subscribe(ticket)).pending.contains(t)
                == barrier.pending.contains(t)),
        !barrier.pending.contains(barrier.issued),
        barrier_step(barrier, BarrierOp::Register).pending.contains(barrier.issued),
        forall|t: nat|
            t != barrier.issued ==> (#[trigger] barrier_step(barrier, BarrierOp::Register).pending.contains(t)
                == barrier.pending.contains(t)),
{
}

/// The barrier that holds back emits while listeners are subscribing.
#[derive(Debug)]
pub struct StartupBarrier {
    pending: Vec<u64>,
    next: u64,
}

impl View for StartupBarrier {
    type V = BarrierView;

    closed spec fn view(&self) -> BarrierView {
        BarrierView {
            pending: Set::new(|t: nat| exists|i: int| 0 <= i < self.pending@.len() && self.pending@[i] == t),
            issued: self.next as nat,
        }
    }
}

impl StartupBarrier {
    /// A barrier with no ticket issued.
    pub fn new() -> (r: StartupBarrier)
        ensures
            r@ == barrier_start(),
    {
        let r = StartupBarrier { pending: Vec::new(), next: 0 };
        assert(r@.pending =~= Set::<nat>::empty());
        r
    }

    /// How many tickets were issued so far.
    pub fn issued(&self) -> (r: u64)
        ensures
            r == self@.issued,
    {
        self.next
    }

    /// Registers a bind and returns its ticket.
    pub fn register(&mut self) -> (ticket: u64)
        requires
            old(self)@.issued < u64::MAX,
        ensures
            ticket == old(self)@.issued,
            final(self)@ == barrier_step(old(self)@, BarrierOp::Register),
            final(self)@.issued == old(self)@.issued + 1,
            final(self)@.pending.contains(ticket as nat),
            forall|t: nat|
                t != ticket ==> (#[trigger] final(self)@.pending.contains(t) == old(self)@.pending.contains(t)),
    {
        let ticket = self.next;
        let ghost before = self.pending@;
        self.pending.push(ticket);
        self.next = self.next + 1;
        proof {
            let p = self.pending@;
            assert forall|t: nat| #[trigger] self@.pending.contains(t) == old(self)@.pending.insert(
                ticket as nat,
            ).contains(t) by {
                if old(self)@.pending.contains(t) {
                    let i = choose|i: int| 0 <= i < before.len() && before[i] == t;
                    assert(p[i] == t);
                }
                if t == ticket {
                    assert(p[before.len() as int] == t);
                }
                if self@.pending.contains(t) {
                    let i = choose|i: int| 0 <= i < p.len() && p[i] == t;
                    if i < before.len() {
                        assert(before[i] == t);
                    }
                }
            }
            assert(self@.pending =~= old(self)@.pending.insert(ticket as nat));
        }
        ticket
    }

    /// The listener holding `ticket` has subscribed: its ticket is no longer
    /// outstanding. A ticket that is not outstanding changes nothing.
    pub fn subscribed(&mut self, ticket: u64)
        ensures
            final(self)@ == barrier_step(old(self)@, BarrierOp::Subscribe(ticket as nat)),
            final(self)@.issued == old(self)@.issued,
            !final(self)@.pending.contains(ticket as nat),
            forall|t: nat|
                t != ticket ==> (#[trigger] final(self)@.pending.contains(t) == old(self)@.pending.contains(t)),
    {
        let mut kept: Vec<u64> = Vec::new();
        let n = self.pending.len();
        let ghost old_p = self.pending@;
        let mut i: usize = 0;
        while i < n
            invariant
                0 <= i <= n,
                n == old_p.len(),
                old_p == self.pending@,
                forall|j: int| 0 <= j < kept@.len() ==> kept@[j] != ticket,
                forall|j: int|
                    #![trigger kept@[j]]
                    0 <= j < kept@.len() ==> exists|k: int| 0 <= k < i && old_p[k] == kept@[j],
                forall|k: int|
                    #![trigger old_p[k]]
                    0 <= k < i && old_p[k] != ticket ==> exists|j: int|
                        0 <= j < kept@.len() && kept@[j] == old_p[k],
            decreases n - i,
        {
            let value = self.pending[i];
            if value != ticket {
                let ghost before = kept@;
                kept.push(value);
                assert(kept@[before.len() as int] == value);
                assert forall|j: int| 0 <= j < kept@.len() implies exists|k: int|
                    0 <= k < i + 1 && old_p[k] == #[trigger] kept@[j] by {
                    if j < before.len() {
                        assert(kept@[j] == before[j]);
                        let k = choose|k: int| 0 <= k < i && old_p[k] == before[j];
                        assert(0 <= k < i + 1 && old_p[k] == kept@[j]);
                    } else {
                        assert(old_p[i as int] == kept@[j]);
                    }
                }
                assert forall|k: int| 0 <= k < i + 1 && #[trigger] old_p[k] != ticket implies exists|
                    j: int,
                | 0 <= j < kept@.len() && kept@[j] == old_p[k] by {
                    if k < i {
                        let j = choose|j: int| 0 <= j < before.len() && before[j] == old_p[k];
                        assert(kept@[j] == before[j]);
                    } else {
                        assert(kept@[before.len() as int] == old_p[k]);
                    }
                }
            } else {
                assert forall|j: int| 0 <= j < kept@.len() implies exists|k: int|
                    0 <= k < i + 1 && old_p[k] == #[trigger] kept@[j] by {
                    let k = choose|k: int| 0 <= k < i && old_p[k] == kept@[j];
                    assert(0 <= k < i + 1 && old_p[k] == kept@[j]);
                }
            }
            i = i + 1;
        }
        self.pending = kept;
        proof {
            let p = self.pending@;
            assert forall|t: nat| #[trigger] self@.pending.contains(t) == old(self)@.pending.remove(
                ticket as nat,
            ).contains(t) by {
                if self@.pending.contains(t) {
                    let j = choose|j: int| 0 <= j < p.len() && p[j] == t;
                    let k = choose|k: int| 0 <= k < n && old_p[k] == p[j];
                    assert(old(self)@.pending.contains(t));
                }
                if old(self)@.pending.remove(ticket as nat).contains(t) {
                    let k = choose|k: int| 0 <= k < old_p.len() && old_p[k] == t;
                    assert(old_p[k] != ticket);
                    let j = choose|j: int| 0 <= j < p.len() && p[j] == old_p[k];
                    assert(self@.pending.contains(t));
                }
            }
            assert(self@.pending =~= old(self)@.pending.remove(ticket as nat));
        }
    }

    /// Whether an emit may publish now: no listener is still subscribing.
    pub fn may_publish(&self) -> (r: bool)
        ensures
            r == may_publish_spec(self@),
            r <==> forall|t: nat| !#[trigger] self@.pending.contains(t),
    {
        let r = self.pending.len() == 0;
        proof {
            if r {
                assert(self@.pending =~= Set::<nat>::empty());
            } else {
                assert(self@.pending.contains(self.pending@[0] as nat));
            }
        }
        r
    }
}

} // verus!
