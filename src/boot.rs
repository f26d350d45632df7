use vstd::prelude::*;

use crate::error::Error;

verus! {

/// Capacity of the queue from the RPC front-end to the dispatcher.
pub const INTENT_QUEUE_CAPACITY: usize = 100;

/// The mesh settings that the peer-to-peer layer is prepared against.
#[derive(Debug)]
pub struct TopicConfig {
    pub address: String,
    pub peers: Vec<String>,
    pub orderbook: bool,
    pub dkg: bool,
}

/// Applies the values given on the command line onto the configured ones.
/// A given address or peer list replaces the configured one whole (the peer
/// lists are not merged); the two topic flags are always set.
pub fn apply_overrides(
    topics: TopicConfig,
    address: Option<String>,
    peers: Option<Vec<String>>,
    orderbook: bool,
    dkg: bool,
) -> (r: TopicConfig)
    ensures
        r.address == (match address {
            Some(a) => a,
            None => topics.address,
        }),
        r.peers == (match peers {
            Some(p) => p,
            None => topics.peers,
        }),
        r.orderbook == orderbook,
        r.dkg == dkg,
{
    let mut r = topics;
    if let Some(a) = address {
        r.address = a;
    }
    if let Some(p) = peers {
        r.peers = p;
    }
    r.orderbook = orderbook;
    r.dkg = dkg;
    r
}

/// The task that boot is at: each is done by the caller, which then reports
/// how it went.
#[derive(Debug, Clone, Copy, PartialEq, Eq, Structural)]
pub enum BootStage {
    /// Load the node identity from the bookkeeper store.
    LoadIdentity,
    /// Start the RPC front-end on its own context, with a queue of
    /// `INTENT_QUEUE_CAPACITY` intents towards the dispatcher.
    StartRpc,
    /// Build the peer-to-peer layer.
    BuildP2p,
    /// Subscribe, listen and dial against the final topic configuration.
    Prepare,
    /// Boot is over: run the dispatcher, and the bridge when enabled.
    Dispatch,
    /// Boot failed; nothing further is started.
    Failed,
}

/// How the task of the current stage went.
#[derive(Debug)]
pub enum Outcome {
    Done,
    Failed(String),
}

pub open spec fn is_final(s: BootStage) -> bool {
    s == BootStage::Dispatch || s == BootStage::Failed
}

/// The stage that follows a task's outcome. A failure of the RPC front-end
/// stays in its own context and does not stop boot.
pub open spec fn next_stage(s: BootStage, rpc: bool, o: Outcome) -> BootStage {
    match s {
        BootStage::LoadIdentity => if o is Failed {
            BootStage::Failed
        } else if rpc {
            BootStage::StartRpc
        } else {
            BootStage::BuildP2p
        },
        BootStage::StartRpc => BootStage::BuildP2p,
        BootStage::BuildP2p => if o is Failed {
            BootStage::Failed
        } else {
            BootStage::Prepare
        },
        BootStage::Prepare => if o is Failed {
            BootStage::Failed
        } else {
            BootStage::Dispatch
        },
        _ => s,
    }
}

/// The fatal error that a task's outcome gives, if any.
pub open spec fn boot_error(s: BootStage, o: Outcome) -> Option<Error> {
    match o {
        Outcome::Done => None,
        Outcome::Failed(m) => match s {
            BootStage::LoadIdentity => Some(Error::BadBookkeeper(m)),
            BootStage::BuildP2p | BootStage::Prepare => Some(Error::P2pSwarmError(m)),
            _ => None,
        },
    }
}

/// The stages that boot goes through on a sequence of outcomes, from `s`
/// up to a final stage or the end of the outcomes.
pub open spec fn visited(s: BootStage, rpc: bool, os: Seq<Outcome>) -> Seq<BootStage>
    decreases os.len(),
{
    if is_final(s) || os.len() == 0 {
        seq![s]
    } else {
        seq![s] + visited(next_stage(s, rpc, os[0]), rpc, os.drop_first())
    }
}

/// The boot sequence of a node, with the configuration it runs under.
#[derive(Debug)]
pub struct Boot {
    pub stage: BootStage,
    pub rpc: bool,
    /// Whether a matchmaker identity was given, which enables the bridge.
    pub bridge: bool,
    pub matchmaker: Option<String>,
    pub ledger_address: Option<String>,
    pub topics: TopicConfig,
}

impl Boot {
    /// A boot about to load the identity, with the command-line values
    /// applied onto the configured topics.
    pub fn new(
        topics: TopicConfig,
        rpc: bool,
        orderbook: bool,
        dkg: bool,
        address: Option<String>,
        peers: Option<Vec<String>>,
        matchmaker: Option<String>,
        ledger_address: Option<String>,
    ) -> (b: Boot)
        ensures
            b.stage == BootStage::LoadIdentity,
            b.rpc == rpc,
            b.bridge == matchmaker is Some,
            b.matchmaker == matchmaker,
            b.ledger_address == ledger_address,
            b.topics.address == (match address {
                Some(a) => a,
                None => topics.address,
            }),
            b.topics.peers == (match peers {
                Some(p) => p,
                None => topics.peers,
            }),
            b.topics.orderbook == orderbook,
            b.topics.dkg == dkg,
    {
        let bridge = matchmaker.is_some();
        Boot {
            stage: BootStage::LoadIdentity,
            rpc,
            bridge,
            matchmaker,
            ledger_address,
            topics: apply_overrides(topics, address, peers, orderbook, dkg),
        }
    }

    /// Takes the outcome of the current task and moves to the next stage;
    /// a failure of the identity load, the build or the preparation ends
    /// boot with its fatal error.
    pub fn advance(&mut self, o: Outcome) -> (r: Result<(), Error>)
        requires
            !is_final(old(self).stage),
        ensures
            final(self).stage == next_stage(old(self).stage, old(self).rpc, o),
            final(self).rpc == old(self).rpc,
            final(self).bridge == old(self).bridge,
            final(self).matchmaker == old(self).matchmaker,
            final(self).ledger_address == old(self).ledger_address,
            final(self).topics == old(self).topics,
            r == (match boot_error(old(self).stage, o) {
                Some(e) => Err(e),
                None => Ok::<(), Error>(()),
            }),
    {
        match self.stage {
            BootStage::LoadIdentity => match o {
                Outcome::Done => {
                    self.stage = if self.rpc {
                        BootStage::StartRpc
                    } else {
                        BootStage::BuildP2p
                    };
                    Ok(())
                },
                Outcome::Failed(m) => {
                    self.stage = BootStage::Failed;
                    Err(Error::BadBookkeeper(m))
                },
            },
            BootStage::StartRpc => {
                self.stage = BootStage::BuildP2p;
                Ok(())
            },
            BootStage::BuildP2p => match o {
                Outcome::Done => {
                    self.stage = BootStage::Prepare;
                    Ok(())
                },
                Outcome::Failed(m) => {
                    self.stage = BootStage::Failed;
                    Err(Error::P2pSwarmError(m))
                },
            },
            _ => match o {
                Outcome::Done => {
                    self.stage = BootStage::Dispatch;
                    Ok(())
                },
                Outcome::Failed(m) => {
                    self.stage = BootStage::Failed;
                    Err(Error::P2pSwarmError(m))
                },
            },
        }
    }
}

/// A node whose identity cannot be loaded fails at once with a bookkeeper
/// error, whatever else would have come: it starts no RPC front-end, builds
/// and prepares no peer-to-peer layer and runs no dispatcher.
pub proof fn lemma_fatal_identity(rpc: bool, os: Seq<Outcome>)
    requires
        os.len() > 0,
        os[0] is Failed,
    ensures
        visited(BootStage::LoadIdentity, rpc, os) == seq![BootStage::LoadIdentity, BootStage::Failed],
        boot_error(BootStage::LoadIdentity, os[0]) == Some(Error::BadBookkeeper(os[0]->Failed_0)),
{
    assert(visited(BootStage::Failed, rpc, os.drop_first()) == seq![BootStage::Failed]);
    assert(seq![BootStage::LoadIdentity] + seq![BootStage::Failed] =~= seq![
        BootStage::LoadIdentity,
        BootStage::Failed,
    ]);
}

/// When every task succeeds, boot loads the identity, starts the RPC
/// front-end exactly when it is enabled, builds and prepares the layer, and
/// reaches the dispatch stage.
pub proof fn lemma_boot_completes(rpc: bool, os: Seq<Outcome>)
    requires
        os.len() >= 4,
        forall|j: int| 0 <= j < os.len() ==> #[trigger] os[j] is Done,
    ensures
        visited(BootStage::LoadIdentity, rpc, os) == if rpc {
            seq![
                BootStage::LoadIdentity,
                BootStage::StartRpc,
                BootStage::BuildP2p,
                BootStage::Prepare,
                BootStage::Dispatch,
            ]
        } else {
            seq![BootStage::LoadIdentity, BootStage::BuildP2p, BootStage::Prepare, BootStage::Dispatch]
        },
{
    let o1 = os.drop_first();
    let o2 = o1.drop_first();
    let o3 = o2.drop_first();
    let o4 = o3.drop_first();
    assert(os[0] is Done);
    assert(o1[0] == os[1] && o1[0] is Done);
    assert(o2[0] == os[2] && o2[0] is Done);
    assert(o3[0] == os[3] && o3[0] is Done);
    if rpc {
        let v4 = visited(BootStage::Dispatch, rpc, o4);
        assert(v4 == seq![BootStage::Dispatch]);
        let v3 = visited(BootStage::Prepare, rpc, o3);
        assert(v3 == seq![BootStage::Prepare] + v4);
        let v2 = visited(BootStage::BuildP2p, rpc, o2);
        assert(v2 == seq![BootStage::BuildP2p] + v3);
        let v1 = visited(BootStage::StartRpc, rpc, o1);
        assert(v1 == seq![BootStage::StartRpc] + v2);
        assert(visited(BootStage::LoadIdentity, rpc, os) == seq![BootStage::LoadIdentity] + v1);
        assert(visited(BootStage::LoadIdentity, rpc, os) =~= seq![
            BootStage::LoadIdentity,
            BootStage::StartRpc,
            BootStage::BuildP2p,
            BootStage::Prepare,
            BootStage::Dispatch,
        ]);
    } else {
        let v3 = visited(BootStage::Dispatch, rpc, o3);
        assert(v3 == seq![BootStage::Dispatch]);
        let v2 = visited(BootStage::Prepare, rpc, o2);
        assert(v2 == seq![BootStage::Prepare] + v3);
        let v1 = visited(BootStage::BuildP2p, rpc, o1);
        assert(v1 == seq![BootStage::BuildP2p] + v2);
        assert(visited(BootStage::LoadIdentity, rpc, os) == seq![BootStage::LoadIdentity] + v1);
        assert(visited(BootStage::LoadIdentity, rpc, os) =~= seq![
            BootStage::LoadIdentity,
            BootStage::BuildP2p,
            BootStage::Prepare,
            BootStage::Dispatch,
        ]);
    }
}

} // verus!
