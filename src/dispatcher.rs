use vstd::prelude::*;

use crate::error::Error;

verus! {

/// One of the event sources that the dispatcher waits on.
#[derive(Debug, Clone, Copy, PartialEq, Eq, Structural)]
pub enum Source {
    /// Intents submitted by clients through the RPC front-end.
    Rpc,
    /// Activity of the swarm itself, which must never yield an item.
    Swarm,
    /// Events that the peer-to-peer layer observed on the mesh.
    Network,
}

/// The consumer end of a channel, as the dispatcher sees it.
#[derive(Debug, Clone, Copy, PartialEq, Eq, Structural)]
pub enum Channel {
    /// The source was not enabled at boot: nothing is ever read from it.
    Absent,
    Open,
    /// The producer side was dropped: the source is no longer polled.
    Closed,
}

/// What became ready on one of the polled sources.
#[derive(Debug)]
pub enum Ready<I, E> {
    Intent(I),
    RpcClosed,
    Event(E),
    NetworkClosed,
    /// The swarm stream yielded, with a description of what it yielded.
    Swarm(String),
}

/// What the dispatcher does with a ready item.
#[derive(Debug)]
pub enum Step<I, E> {
    /// Hand the intent, as it came, to the layer's intent handler.
    HandleRpc(I),
    /// Hand the event, as it came, to the layer's network-event handler.
    HandleNetwork(E),
    /// Nothing to hand over; wait on the remaining sources.
    Idle,
    /// Stop the loop with a fatal error.
    Abort(Error),
}

/// The position of a source in the dispatcher's rotation.
pub open spec fn slot(s: Source) -> nat {
    match s {
        Source::Rpc => 0,
        Source::Swarm => 1,
        Source::Network => 2,
    }
}

/// The source at a position of the rotation.
pub open spec fn source_at(i: int) -> Source {
    if i % 3 == 0 {
        Source::Rpc
    } else if i % 3 == 1 {
        Source::Swarm
    } else {
        Source::Network
    }
}

/// The source that a ready item came from.
pub open spec fn origin<I, E>(r: Ready<I, E>) -> Source {
    match r {
        Ready::Intent(_) | Ready::RpcClosed => Source::Rpc,
        Ready::Event(_) | Ready::NetworkClosed => Source::Network,
        Ready::Swarm(_) => Source::Swarm,
    }
}

/// The step taken on a ready item: it depends on the item alone.
pub open spec fn step_of<I, E>(r: Ready<I, E>) -> Step<I, E> {
    match r {
        Ready::Intent(i) => Step::HandleRpc(i),
        Ready::Event(e) => Step::HandleNetwork(e),
        Ready::RpcClosed | Ready::NetworkClosed => Step::Idle,
        Ready::Swarm(d) => Step::Abort(Error::P2pDispatcherError(d)),
    }
}

fn source_at_exec(i: u8) -> (r: Source)
    requires
        i < 3,
    ensures
        r == source_at(i as int),
{
    if i == 0 {
        Source::Rpc
    } else if i == 1 {
        Source::Swarm
    } else {
        Source::Network
    }
}

/// The multiplexing state: which channels are still read, and which source
/// comes first in the next wait. Every enabled source is polled on every
/// wait; the lead rotates so that no ready source is passed over for more
/// than two waits in a row.
#[derive(Debug, Clone, Copy, PartialEq, Eq, Structural)]
pub struct Dispatcher {
    pub rpc: Channel,
    pub network: Channel,
    pub turn: u8,
}

impl Dispatcher {
    pub open spec fn wf(self) -> bool {
        &&& self.turn < 3
        &&& self.network != Channel::Absent
    }

    /// Whether the next wait polls the source.
    pub open spec fn polls(self, s: Source) -> bool {
        match s {
            Source::Rpc => self.rpc == Channel::Open,
            Source::Swarm => true,
            Source::Network => self.network == Channel::Open,
        }
    }

    /// The polled sources among the first `k` positions from the lead.
    pub open spec fn leading(self, k: nat) -> Seq<Source>
        decreases k,
    {
        if k == 0 {
            Seq::empty()
        } else {
            let s = source_at(self.turn + k - 1);
            self.leading((k - 1) as nat) + if self.polls(s) {
                seq![s]
            } else {
                Seq::empty()
            }
        }
    }

    /// The order in which the next wait polls its sources.
    pub open spec fn order(self) -> Seq<Source> {
        self.leading(3)
    }

    /// The state after handling a ready item.
    pub open spec fn next(self, r: Ready<impl Sized, impl Sized>) -> Dispatcher {
        Dispatcher {
            rpc: if r is RpcClosed {
                Channel::Closed
            } else {
                self.rpc
            },
            network: if r is NetworkClosed {
                Channel::Closed
            } else {
                self.network
            },
            turn: ((self.turn + 1) % 3) as u8,
        }
    }

    /// A dispatcher at boot; the RPC channel is read only when enabled.
    pub fn new(rpc_enabled: bool) -> (d: Dispatcher)
        ensures
            d.wf(),
            d.rpc == (if rpc_enabled {
                Channel::Open
            } else {
                Channel::Absent
            }),
            d.network == Channel::Open,
            d.turn == 0,
    {
        Dispatcher {
            rpc: if rpc_enabled {
                Channel::Open
            } else {
                Channel::Absent
            },
            network: Channel::Open,
            turn: 0,
        }
    }

    fn polls_exec(&self, s: Source) -> (r: bool)
        ensures
            r == self.polls(s),
    {
        match s {
            Source::Rpc => self.rpc == Channel::Open,
            Source::Swarm => true,
            Source::Network => self.network == Channel::Open,
        }
    }

    /// The sources to poll on the next wait, lead first; the first of them
    /// that is ready is the one taken.
    pub fn poll_order(&self) -> (r: Vec<Source>)
        requires
            self.wf(),
        ensures
            r@ == self.order(),
    {
        let mut r: Vec<Source> = Vec::new();
        let mut k: u8 = 0;
        while k < 3
            invariant
                self.wf(),
                k <= 3,
                r@ == self.leading(k as nat),
            decreases 3 - k,
        {
            let s = source_at_exec((self.turn + k) % 3);
            proof {
                assert(source_at((self.turn + k) % 3) == source_at(self.turn + k));
            }
            if self.polls_exec(s) {
                r.push(s);
            }
            k = k + 1;
        }
        r
    }

    /// Routes one ready item: an intent to the intent handler, a network
    /// event to the network-event handler, a closed channel out of the
    /// rotation, and any item of the swarm stream to a fatal error.
    pub fn step<I, E>(&mut self, r: Ready<I, E>) -> (s: Step<I, E>)
        requires
            old(self).wf(),
            old(self).polls(origin(r)),
        ensures
            final(self).wf(),
            *final(self) == old(self).next(r),
            s == step_of(r),
    {
        self.turn = (self.turn + 1) % 3;
        match r {
            Ready::Intent(i) => Step::HandleRpc(i),
            Ready::Event(e) => Step::HandleNetwork(e),
            Ready::RpcClosed => {
                self.rpc = Channel::Closed;
                Step::Idle
            },
            Ready::NetworkClosed => {
                self.network = Channel::Closed;
                Step::Idle
            },
            Ready::Swarm(d) => Step::Abort(Error::P2pDispatcherError(d)),
        }
    }
}

} // verus!
