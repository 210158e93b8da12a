use vstd::prelude::*;

verus! {

/// The abstract state of the guard over the single upstream connection.
pub struct GuardView {
    /// Tickets of the callers waiting for the connection, in arrival order.
    pub waiting: Seq<u64>,
    /// The ticket of the caller that holds the connection, if any.
    pub holder: Option<u64>,
    /// The ticket the next arriving caller receives.
    pub next_ticket: nat,
    /// How many upstream calls have finished.
    pub completed: nat,
}

/// An event at the guard: a caller arrives, asks to enter, leaves after its
/// call, or gives up while waiting.
pub enum GuardEvent {
    Arrive,
    Enter(u64),
    Leave(u64),
    Withdraw(u64),
}

/// Tickets are handed out in increasing order and each is in one place only.
pub open spec fn guard_wf(g: GuardView) -> bool {
    &&& g.next_ticket <= u64::MAX
    &&& forall|i: int, j: int| 0 <= i < j < g.waiting.len() ==> g.waiting[i] < g.waiting[j]
    &&& forall|i: int| 0 <= i < g.waiting.len() ==> (#[trigger] g.waiting[i] as nat) < g.next_ticket
    &&& g.holder matches Some(h) ==> (h as nat) < g.next_ticket && !g.waiting.contains(h)
}

pub open spec fn initial_guard() -> GuardView {
    GuardView { waiting: Seq::empty(), holder: None, next_ticket: 0, completed: 0 }
}

/// The first waiting caller enters, and only when nobody holds the connection.
pub open spec fn may_enter(g: GuardView, t: u64) -> bool {
    g.holder is None && g.waiting.len() > 0 && g.waiting[0] == t
}

/// The state after one event. An event that does not apply leaves it as it is.
pub open spec fn guard_step(g: GuardView, e: GuardEvent) -> GuardView {
    match e {
        GuardEvent::Arrive => if g.next_ticket < u64::MAX {
            GuardView {
                waiting: g.waiting.push(g.next_ticket as u64),
                next_ticket: g.next_ticket + 1,
                ..g
            }
        } else {
            g
        },
        GuardEvent::Enter(t) => if may_enter(g, t) {
            GuardView { waiting: g.waiting.drop_first(), holder: Some(t), ..g }
        } else {
            g
        },
        GuardEvent::Leave(t) => if g.holder == Some(t) {
            GuardView { holder: None, completed: g.completed + 1, ..g }
        } else {
            g
        },
        GuardEvent::Withdraw(t) => GuardView { waiting: g.waiting.filter(|x: u64| x != t), ..g },
    }
}

/// Whether `e` is an entry that the guard grants in state `g`.
pub open spec fn grants(g: GuardView, e: GuardEvent) -> bool {
    e matches GuardEvent::Enter(t) && may_enter(g, t)
}

/// The state after a sequence of events.
pub open spec fn guard_run(g: GuardView, events: Seq<GuardEvent>) -> GuardView
    decreases events.len(),
{
    if events.len() == 0 {
        g
    } else {
        guard_run(guard_step(g, events[0]), events.drop_first())
    }
}

/// How many entries the guard grants over a sequence of events.
pub open spec fn granted_count(g: GuardView, events: Seq<GuardEvent>) -> nat
    decreases events.len(),
{
    if events.len() == 0 {
        0
    } else {
        (if grants(g, events[0]) {
            1nat
        } else {
            0nat
        }) + granted_count(guard_step(g, events[0]), events.drop_first())
    }
}

pub open spec fn holds(g: GuardView) -> nat {
    if g.holder is Some {
        1
    } else {
        0
    }
}

proof fn lemma_step_wf(g: GuardView, e: GuardEvent)
    requires
        guard_wf(g),
    ensures
        guard_wf(guard_step(g, e)),
{
    match e {
        GuardEvent::Arrive => if g.next_ticket < u64::MAX {
            let n = guard_step(g, e);
            assert forall|i: int, j: int| 0 <= i < j < n.waiting.len() implies n.waiting[i]
                < n.waiting[j] by {
                assert(n.waiting[i] == g.waiting[i]);
                if j < g.waiting.len() {
                    assert(n.waiting[j] == g.waiting[j]);
                }
            }
            assert forall|i: int| 0 <= i < n.waiting.len() implies (#[trigger] n.waiting[i] as nat)
                < n.next_ticket by {
                if i < g.waiting.len() {
                    assert(n.waiting[i] == g.waiting[i]);
                }
            }
            if let Some(h) = g.holder {
                if n.waiting.contains(h) {
                    let k = choose|k: int| 0 <= k < n.waiting.len() && n.waiting[k] == h;
                    if k < g.waiting.len() {
                        assert(g.waiting[k] == h);
                    }
                }
            }
        },
        GuardEvent::Enter(t) => {
            if may_enter(g, t) {
                let n = guard_step(g, e);
                assert((g.waiting[0] as nat) < g.next_ticket);
                if n.waiting.contains(t) {
                    let k = choose|k: int| 0 <= k < n.waiting.len() && n.waiting[k] == t;
                    assert(g.waiting[k + 1] == t);
                    assert(g.waiting[0] < g.waiting[k + 1]);
                }
                assert forall|i: int| 0 <= i < n.waiting.len() implies (#[trigger] n.waiting[i]
                    as nat) < n.next_ticket by {
                    assert(n.waiting[i] == g.waiting[i + 1]);
                }
                assert forall|i: int, j: int| 0 <= i < j < n.waiting.len() implies n.waiting[i]
                    < n.waiting[j] by {
                    assert(n.waiting[i] == g.waiting[i + 1]);
                    assert(n.waiting[j] == g.waiting[j + 1]);
                }
            }
        },
        GuardEvent::Leave(t) => {},
        GuardEvent::Withdraw(t) => {
            let n = guard_step(g, e);
            let pred = |x: u64| x != t;
            lemma_filter_sorted(g.waiting, pred);
            lemma_filter_members(g.waiting, pred);
            assert forall|i: int| 0 <= i < n.waiting.len() implies (#[trigger] n.waiting[i] as nat)
                < n.next_ticket by {
                assert(g.waiting.contains(n.waiting[i]));
            }
            if let Some(h) = g.holder {
                if n.waiting.contains(h) {
                    let k = choose|k: int| 0 <= k < n.waiting.len() && n.waiting[k] == h;
                    assert(g.waiting.contains(n.waiting[k]));
                }
            }
        },
    }
}

proof fn lemma_filter_sorted(s: Seq<u64>, pred: spec_fn(u64) -> bool)
    requires
        forall|i: int, j: int| 0 <= i < j < s.len() ==> s[i] < s[j],
    ensures
        forall|i: int, j: int|
            0 <= i < j < s.filter(pred).len() ==> s.filter(pred)[i] < s.filter(pred)[j],
    decreases s.len(),
{
    reveal(Seq::filter);
    if s.len() > 0 {
        let p = s.drop_last();
        assert forall|i: int, j: int| 0 <= i < j < p.len() implies p[i] < p[j] by {
            assert(p[i] == s[i] && p[j] == s[j]);
        }
        lemma_filter_sorted(p, pred);
        lemma_filter_members(p, pred);
        let f = s.filter(pred);
        let fp = p.filter(pred);
        if pred(s.last()) {
            assert(f == fp.push(s.last()));
            assert forall|i: int, j: int| 0 <= i < j < f.len() implies f[i] < f[j] by {
                if j == f.len() - 1 {
                    assert(f[i] == fp[i]);
                    assert(p.contains(fp[i]));
                    let k = choose|k: int| 0 <= k < p.len() && p[k] == fp[i];
                    assert(p[k] == s[k]);
                } else {
                    assert(f[i] == fp[i] && f[j] == fp[j]);
                }
            }
        } else {
            assert(f == fp);
        }
    }
}

proof fn lemma_filter_members(s: Seq<u64>, pred: spec_fn(u64) -> bool)
    ensures
        forall|i: int| 0 <= i < s.filter(pred).len() ==> s.contains(#[trigger] s.filter(pred)[i]),
    decreases s.len(),
{
    reveal(Seq::filter);
    if s.len() > 0 {
        let p = s.drop_last();
        lemma_filter_members(p, pred);
        let f = s.filter(pred);
        let fp = p.filter(pred);
        assert forall|i: int| 0 <= i < f.len() implies s.contains(#[trigger] f[i]) by {
            if i < fp.len() {
                assert(f[i] == fp[i]);
                assert(p.contains(fp[i]));
                let k = choose|k: int| 0 <= k < p.len() && p[k] == fp[i];
                assert(s[k] == p[k]);
            } else {
                assert(f[i] == s.last());
                assert(s[s.len() - 1] == s.last());
            }
        }
    }
}

/// The upstream connection is held by one caller at a time: from any
/// well-formed state, over any sequence of events, the state stays
/// well-formed, and every entry the guard grants is matched by exactly one
/// finished call or by the one call in progress, so N granted entries are N
/// calls that never overlap.
pub proof fn lemma_calls_are_sequential(g: GuardView, events: Seq<GuardEvent>)
    requires
        guard_wf(g),
    ensures
        guard_wf(guard_run(g, events)),
        guard_run(g, events).completed + holds(guard_run(g, events)) == g.completed + holds(g)
            + granted_count(g, events),
    decreases events.len(),
{
    if events.len() > 0 {
        lemma_step_wf(g, events[0]);
        lemma_calls_are_sequential(guard_step(g, events[0]), events.drop_first());
    }
}

/// Serialized, first-come first-served access to the single upstream
/// connection.
pub struct UpstreamGuard {
    waiting: Vec<u64>,
    holder: Option<u64>,
    next_ticket: u64,
    completed: u64,
}

impl View for UpstreamGuard {
    type V = GuardView;

    closed spec fn view(&self) -> GuardView {
        GuardView {
            waiting: self.waiting@,
            holder: self.holder,
            next_ticket: self.next_ticket as nat,
            completed: self.completed as nat,
        }
    }
}

impl UpstreamGuard {
    pub open spec fn wf(&self) -> bool {
        guard_wf(self@)
    }

    pub fn new() -> (r: UpstreamGuard)
        ensures
            r@ == initial_guard(),
            r.wf(),
    {
        let r = UpstreamGuard { waiting: Vec::new(), holder: None, next_ticket: 0, completed: 0 };
        assert(r@ =~= initial_guard());
        r
    }

    /// A caller arrives and queues behind those already waiting.
    pub fn arrive(&mut self) -> (t: u64)
        requires
            old(self).wf(),
            old(self)@.next_ticket < u64::MAX,
        ensures
            final(self).wf(),
            t as nat == old(self)@.next_ticket,
            final(self)@ == guard_step(old(self)@, GuardEvent::Arrive),
    {
        proof {
            lemma_step_wf(self@, GuardEvent::Arrive);
        }
        let t = self.next_ticket;
        self.waiting.push(t);
        self.next_ticket = t + 1;
        assert(self@ =~= guard_step(old(self)@, GuardEvent::Arrive));
        t
    }

    /// The caller with ticket `t` asks for the connection; it is granted only
    /// when nobody holds it and `t` is first in line.
    pub fn try_enter(&mut self, t: u64) -> (granted: bool)
        requires
            old(self).wf(),
        ensures
            final(self).wf(),
            granted == may_enter(old(self)@, t),
            granted ==> final(self)@.holder == Some(t),
            final(self)@ == guard_step(old(self)@, GuardEvent::Enter(t)),
    {
        proof {
            lemma_step_wf(self@, GuardEvent::Enter(t));
        }
        if self.holder.is_none() && self.waiting.len() > 0 && self.waiting[0] == t {
            self.waiting.remove(0);
            self.holder = Some(t);
            assert(self@ =~= guard_step(old(self)@, GuardEvent::Enter(t)));
            true
        } else {
            false
        }
    }

    /// The caller with ticket `t` releases the connection after its call, on
    /// every exit path of that call.
    pub fn leave(&mut self, t: u64)
        requires
            old(self).wf(),
            old(self)@.completed < u64::MAX,
        ensures
            final(self).wf(),
            final(self)@ == guard_step(old(self)@, GuardEvent::Leave(t)),
    {
        proof {
            lemma_step_wf(self@, GuardEvent::Leave(t));
        }
        if self.holder == Some(t) {
            self.holder = None;
            self.completed = self.completed + 1;
        }
    }

    /// The caller with ticket `t` gives up while waiting: its place in line
    /// is removed.
    pub fn withdraw(&mut self, t: u64)
        requires
            old(self).wf(),
        ensures
            final(self).wf(),
            final(self)@ == guard_step(old(self)@, GuardEvent::Withdraw(t)),
    {
        proof {
            lemma_step_wf(self@, GuardEvent::Withdraw(t));
        }
        let mut kept: Vec<u64> = Vec::new();
        let mut i: usize = 0;
        while i < self.waiting.len()
            invariant
                i <= self.waiting@.len(),
                self.waiting@ == old(self)@.waiting,
                kept@ == self.waiting@.take(i as int).filter(|x: u64| x != t),
            decreases self.waiting@.len() - i,
        {
            proof {
                reveal(Seq::filter);
                assert(self.waiting@.take(i + 1).drop_last() =~= self.waiting@.take(i as int));
            }
            if self.waiting[i] != t {
                kept.push(self.waiting[i]);
            }
            i = i + 1;
        }
        assert(self.waiting@.take(i as int) =~= self.waiting@);
        self.waiting = kept;
        assert(self@ =~= guard_step(old(self)@, GuardEvent::Withdraw(t)));
    }

    /// Whether another caller can still be given a ticket.
    pub fn can_admit(&self) -> (r: bool)
        ensures
            r == (self@.next_ticket < u64::MAX),
    {
        self.next_ticket < u64::MAX
    }

    /// Whether the caller with ticket `t` holds the connection.
    pub fn is_holder(&self, t: u64) -> (r: bool)
        ensures
            r == (self@.holder == Some(t)),
    {
        self.holder == Some(t)
    }

    /// How many upstream calls have finished.
    pub fn completed(&self) -> (r: u64)
        ensures
            r as nat == self@.completed,
    {
        self.completed
    }
}

} // verus!
