use vstd::prelude::*;

verus! {

/// The consensus-ledger endpoint that transactions are broadcast to.
pub const LEDGER_ENDPOINT: &'static str = "tcp://127.0.0.1:26657";

/// Where the bridge stands between the transaction channel and the ledger.
#[derive(Debug, Clone, Copy, PartialEq, Eq, Structural)]
pub enum BridgeStage {
    /// Waiting for the next transaction.
    Receiving,
    /// A broadcast-and-commit request is in flight.
    Committing,
    /// The transaction channel was closed: nothing more will come.
    Stopped,
}

/// What the bridge observed.
#[derive(Debug)]
pub enum BridgeEvent {
    /// A transaction from the matchmaker, in its binary wire encoding.
    Tx(Vec<u8>),
    /// The transaction channel was closed.
    Closed,
    /// The ledger acknowledged the commit.
    Committed,
    /// The broadcast failed, or the ledger refused it.
    Rejected(String),
}

/// What the bridge does next.
#[derive(Debug)]
pub enum BridgeAction {
    /// Broadcast these bytes to the ledger and wait for the commit.
    Broadcast(Vec<u8>),
    /// Report the failure, then wait for the next transaction: a failed
    /// broadcast is not retried and does not stop the bridge.
    Report(String),
    /// Wait for the next transaction.
    Receive,
    /// Leave the loop.
    Stop,
}

/// Whether an event can come in a stage.
pub open spec fn fits(s: BridgeStage, ev: BridgeEvent) -> bool {
    match s {
        BridgeStage::Receiving => ev is Tx || ev is Closed,
        BridgeStage::Committing => ev is Committed || ev is Rejected,
        BridgeStage::Stopped => false,
    }
}

pub open spec fn bridge_next(ev: BridgeEvent) -> BridgeStage {
    match ev {
        BridgeEvent::Tx(_) => BridgeStage::Committing,
        BridgeEvent::Closed => BridgeStage::Stopped,
        _ => BridgeStage::Receiving,
    }
}

pub open spec fn bridge_action(ev: BridgeEvent) -> BridgeAction {
    match ev {
        BridgeEvent::Tx(b) => BridgeAction::Broadcast(b),
        BridgeEvent::Closed => BridgeAction::Stop,
        BridgeEvent::Committed => BridgeAction::Receive,
        BridgeEvent::Rejected(m) => BridgeAction::Report(m),
    }
}

/// The loop that carries matchmaker transactions to the consensus ledger.
#[derive(Debug, Clone, Copy, PartialEq, Eq, Structural)]
pub struct Bridge {
    pub stage: BridgeStage,
}

impl Bridge {
    pub fn new() -> (b: Bridge)
        ensures
            b.stage == BridgeStage::Receiving,
    {
        Bridge { stage: BridgeStage::Receiving }
    }

    /// Decides what follows an event: a transaction is broadcast as it came,
    /// the commit answer, good or bad, leads back to receiving, and a closed
    /// channel ends the loop.
    pub fn step(&mut self, ev: BridgeEvent) -> (a: BridgeAction)
        requires
            fits(old(self).stage, ev),
        ensures
            final(self).stage == bridge_next(ev),
            a == bridge_action(ev),
    {
        match ev {
            BridgeEvent::Tx(b) => {
                self.stage = BridgeStage::Committing;
                BridgeAction::Broadcast(b)
            },
            BridgeEvent::Closed => {
                self.stage = BridgeStage::Stopped;
                BridgeAction::Stop
            },
            BridgeEvent::Committed => {
                self.stage = BridgeStage::Receiving;
                BridgeAction::Receive
            },
            BridgeEvent::Rejected(m) => {
                self.stage = BridgeStage::Receiving;
                BridgeAction::Report(m)
            },
        }
    }
}

/// The actions of the bridge on a sequence of events, from a stage, up to
/// the first event that cannot come there.
pub open spec fn bridge_run(s: BridgeStage, evs: Seq<BridgeEvent>) -> Seq<BridgeAction>
    decreases evs.len(),
{
    if evs.len() == 0 || !fits(s, evs[0]) {
        Seq::empty()
    } else {
        seq![bridge_action(evs[0])] + bridge_run(bridge_next(evs[0]), evs.drop_first())
    }
}

/// The transactions among a sequence of events, in order.
pub open spec fn transactions(evs: Seq<BridgeEvent>) -> Seq<Seq<u8>>
    decreases evs.len(),
{
    if evs.len() == 0 {
        Seq::empty()
    } else {
        (match evs[0] {
            BridgeEvent::Tx(b) => seq![b@],
            _ => Seq::empty(),
        }) + transactions(evs.drop_first())
    }
}

/// The bytes broadcast among a sequence of actions, in order.
pub open spec fn broadcasts(acts: Seq<BridgeAction>) -> Seq<Seq<u8>>
    decreases acts.len(),
{
    if acts.len() == 0 {
        Seq::empty()
    } else {
        (match acts[0] {
            BridgeAction::Broadcast(b) => seq![b@],
            _ => Seq::empty(),
        }) + broadcasts(acts.drop_first())
    }
}

/// Whether each transaction is followed by the ledger's answer to it,
/// whatever that answer is.
pub open spec fn answered(evs: Seq<BridgeEvent>) -> bool {
    &&& evs.len() % 2 == 0
    &&& forall|j: int| 0 <= j < evs.len() && j % 2 == 0 ==> #[trigger] evs[j] is Tx
    &&& forall|j: int|
        0 <= j < evs.len() && j % 2 == 1 ==> #[trigger] evs[j] is Committed || evs[j] is Rejected
}

/// A failing broadcast does not end the bridge: on any run of transactions,
/// each followed by a commit answer that may be a failure, the bridge
/// broadcasts every transaction, in order, and ends back at receiving.
pub proof fn lemma_failures_swallowed(evs: Seq<BridgeEvent>)
    requires
        answered(evs),
    ensures
        broadcasts(bridge_run(BridgeStage::Receiving, evs)) == transactions(evs),
        !bridge_run(BridgeStage::Receiving, evs).contains(BridgeAction::Stop),
    decreases evs.len(),
{
    if evs.len() > 0 {
        let rest = evs.subrange(2, evs.len() as int);
        assert(evs[0] is Tx);
        assert(evs[1] is Committed || evs[1] is Rejected);
        assert forall|j: int| 0 <= j < rest.len() && j % 2 == 0 implies #[trigger] rest[j] is Tx by {
            assert(rest[j] == evs[j + 2]);
        }
        assert forall|j: int| 0 <= j < rest.len() && j % 2 == 1 implies #[trigger] rest[j] is Committed
            || rest[j] is Rejected by {
            assert(rest[j] == evs[j + 2]);
        }
        lemma_failures_swallowed(rest);
        let tail = evs.drop_first();
        assert(tail.drop_first() =~= rest);
        let r1 = bridge_run(BridgeStage::Committing, tail);
        assert(r1 == seq![bridge_action(tail[0])] + bridge_run(BridgeStage::Receiving, rest));
        let r0 = bridge_run(BridgeStage::Receiving, evs);
        assert(r0 == seq![bridge_action(evs[0])] + r1);
        assert(r0.drop_first() =~= r1);
        assert(r1.drop_first() =~= bridge_run(BridgeStage::Receiving, rest));
        assert(transactions(tail) == transactions(rest));
        assert(broadcasts(r1) == broadcasts(bridge_run(BridgeStage::Receiving, rest)));
        let inner = bridge_run(BridgeStage::Receiving, rest);
        assert(!r0.contains(BridgeAction::Stop)) by {
            if r0.contains(BridgeAction::Stop) {
                let i = choose|i: int| 0 <= i < r0.len() && r0[i] == BridgeAction::Stop;
                if i >= 2 {
                    assert(r0[i] == inner[i - 2]);
                }
            }
        }
    }
}

} // verus!
