use vstd::prelude::*;

verus! {

/// Where a write stands, from the moment its transaction goes out until the
/// chip has committed the data.
#[derive(Clone, Copy, Debug, PartialEq, Eq, Structural)]
pub enum WriteCycle {
    /// The write transaction has been issued; its outcome is awaited.
    Sending,
    /// The chip accepted the write and is busy; an empty probe write is out.
    Polling,
    /// The chip acknowledged a probe: the write cycle is over.
    Finished,
    /// The bus refused the write transaction itself.
    Failed,
}

/// What the caller does next with the bus.
#[derive(Clone, Copy, Debug, PartialEq, Eq, Structural)]
pub enum Action {
    /// Issue the driver's empty probe write and report its outcome.
    Probe,
    /// Return success to the caller.
    Complete,
    /// Return the error of the write transaction to the caller.
    Fail,
}

impl WriteCycle {
    /// The next state and action after the last transaction issued was
    /// acknowledged (`acked`) or not.
    pub open spec fn spec_step(self, acked: bool) -> (WriteCycle, Action) {
        match self {
            WriteCycle::Sending => if acked {
                (WriteCycle::Polling, Action::Probe)
            } else {
                (WriteCycle::Failed, Action::Fail)
            },
            WriteCycle::Polling => if acked {
                (WriteCycle::Finished, Action::Complete)
            } else {
                (WriteCycle::Polling, Action::Probe)
            },
            WriteCycle::Finished => (WriteCycle::Finished, Action::Complete),
            WriteCycle::Failed => (WriteCycle::Failed, Action::Fail),
        }
    }

    /// The state of a write whose transaction has just been issued.
    pub fn start() -> (r: WriteCycle)
        ensures
            r == WriteCycle::Sending,
    {
        WriteCycle::Sending
    }

    /// Takes the outcome of the last transaction issued: of the write itself
    /// in `Sending`, of the last probe in `Polling`.
    ///
    /// A refused write fails at once, with no probe. A refused probe only
    /// means the chip is still busy: another probe follows, with no limit.
    pub fn step(self, acked: bool) -> (r: (WriteCycle, Action))
        ensures
            r == self.spec_step(acked),
    {
        match self {
            WriteCycle::Sending => if acked {
                (WriteCycle::Polling, Action::Probe)
            } else {
                (WriteCycle::Failed, Action::Fail)
            },
            WriteCycle::Polling => if acked {
                (WriteCycle::Finished, Action::Complete)
            } else {
                (WriteCycle::Polling, Action::Probe)
            },
            WriteCycle::Finished => (WriteCycle::Finished, Action::Complete),
            WriteCycle::Failed => (WriteCycle::Failed, Action::Fail),
        }
    }
}

/// The state reached from `s` by the outcomes `events`, and how many probes
/// were asked for on the way.
pub open spec fn run(s: WriteCycle, events: Seq<bool>) -> (WriteCycle, nat)
    decreases events.len(),
{
    if events.len() == 0 {
        (s, 0)
    } else {
        let (next, action) = s.spec_step(events[0]);
        let rest = run(next, events.drop_first());
        (rest.0, rest.1 + if action == Action::Probe { 1nat } else { 0nat })
    }
}

/// `k` refused transactions in a row.
pub open spec fn refusals(k: nat) -> Seq<bool> {
    Seq::new(k, |i: int| false)
}

/// The outcomes of a write on a chip that refuses `k` probes: the write is
/// accepted, `k` probes are refused, the next one is acknowledged.
pub open spec fn busy_for(k: nat) -> Seq<bool> {
    seq![true] + refusals(k) + seq![true]
}

proof fn lemma_run_concat(s: WriteCycle, a: Seq<bool>, b: Seq<bool>)
    ensures
        run(s, a + b) == (run(run(s, a).0, b).0, run(s, a).1 + run(run(s, a).0, b).1),
    decreases a.len(),
{
    if a.len() == 0 {
        assert(a + b =~= b);
    } else {
        let next = s.spec_step(a[0]).0;
        assert((a + b).drop_first() =~= a.drop_first() + b);
        lemma_run_concat(next, a.drop_first(), b);
    }
}

proof fn lemma_run_refusals(k: nat)
    ensures
        run(WriteCycle::Polling, refusals(k)) == (WriteCycle::Polling, k),
    decreases k,
{
    if k > 0 {
        assert(refusals(k).drop_first() =~= refusals((k - 1) as nat));
        lemma_run_refusals((k - 1) as nat);
    }
}

/// On a chip that refuses exactly `k` probes and then acknowledges one, a
/// write finishes after exactly `k + 1` probes, and not before: every earlier
/// point of the same outcomes leaves it unfinished.
pub proof fn lemma_poll_terminates(k: nat)
    ensures
        run(WriteCycle::Sending, busy_for(k)) == (WriteCycle::Finished, k + 1),
        forall|j: int|
            0 <= j < busy_for(k).len() ==> run(WriteCycle::Sending, #[trigger] busy_for(k).take(j)).0
                != WriteCycle::Finished,
{
    let t = seq![true];
    lemma_run_concat(WriteCycle::Sending, t, refusals(k));
    lemma_run_concat(WriteCycle::Sending, t + refusals(k), t);
    lemma_run_refusals(k);
    assert(t[0]);
    assert(t.drop_first().len() == 0);
    assert(run(WriteCycle::Polling, t.drop_first()) == (WriteCycle::Polling, 0nat));
    assert(run(WriteCycle::Finished, t.drop_first()) == (WriteCycle::Finished, 0nat));
    assert(run(WriteCycle::Sending, t) == (WriteCycle::Polling, 1nat));
    assert(run(WriteCycle::Polling, t) == (WriteCycle::Finished, 0nat));
    assert forall|j: int| 0 <= j < busy_for(k).len() implies run(
        WriteCycle::Sending,
        #[trigger] busy_for(k).take(j),
    ).0 != WriteCycle::Finished by {
        if j > 0 {
            let m = (j - 1) as nat;
            assert(busy_for(k).take(j) =~= t + refusals(m));
            lemma_run_concat(WriteCycle::Sending, t, refusals(m));
            lemma_run_refusals(m);
        }
    }
}

/// A write that the bus refuses fails at once: no probe is asked for, and
/// no later outcome changes that.
pub proof fn lemma_refused_write_fails(rest: Seq<bool>)
    ensures
        run(WriteCycle::Sending, seq![false] + rest) == (WriteCycle::Failed, 0nat),
{
    lemma_failed_stays(rest);
    assert((seq![false] + rest).drop_first() =~= rest);
}

proof fn lemma_failed_stays(events: Seq<bool>)
    ensures
        run(WriteCycle::Failed, events) == (WriteCycle::Failed, 0nat),
    decreases events.len(),
{
    if events.len() > 0 {
        lemma_failed_stays(events.drop_first());
    }
}

} // verus!
