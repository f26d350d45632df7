use vstd::prelude::*;

use crate::dispatcher::{origin, slot, source_at, step_of, Channel, Dispatcher, Ready, Source, Step};

verus! {

/// The steps that the dispatcher loop takes on a sequence of ready items, up
/// to and including the first abort, after which the loop has ended.
pub open spec fn run<I, E>(rs: Seq<Ready<I, E>>) -> Seq<Step<I, E>>
    decreases rs.len(),
{
    if rs.len() == 0 {
        Seq::empty()
    } else if rs[0] is Swarm {
        seq![step_of(rs[0])]
    } else {
        seq![step_of(rs[0])] + run(rs.drop_first())
    }
}

/// The dispatcher state after the first `k` items of a sequence.
pub open spec fn state_after<I, E>(d: Dispatcher, rs: Seq<Ready<I, E>>, k: nat) -> Dispatcher
    decreases k,
{
    if k == 0 || rs.len() == 0 {
        d
    } else {
        state_after(d.next(rs[0]), rs.drop_first(), (k - 1) as nat)
    }
}

/// The intents that arrived, in arrival order.
pub open spec fn intents<I, E>(rs: Seq<Ready<I, E>>) -> Seq<I>
    decreases rs.len(),
{
    if rs.len() == 0 {
        Seq::empty()
    } else {
        (match rs[0] {
            Ready::Intent(i) => seq![i],
            _ => Seq::empty(),
        }) + intents(rs.drop_first())
    }
}

/// The network events that arrived, in arrival order.
pub open spec fn events<I, E>(rs: Seq<Ready<I, E>>) -> Seq<E>
    decreases rs.len(),
{
    if rs.len() == 0 {
        Seq::empty()
    } else {
        (match rs[0] {
            Ready::Event(e) => seq![e],
            _ => Seq::empty(),
        }) + events(rs.drop_first())
    }
}

/// The intents handed to the intent handler, in the order of the steps.
pub open spec fn handed_intents<I, E>(ss: Seq<Step<I, E>>) -> Seq<I>
    decreases ss.len(),
{
    if ss.len() == 0 {
        Seq::empty()
    } else {
        (match ss[0] {
            Step::HandleRpc(i) => seq![i],
            _ => Seq::empty(),
        }) + handed_intents(ss.drop_first())
    }
}

/// The events handed to the network-event handler, in the order of the steps.
pub open spec fn handed_events<I, E>(ss: Seq<Step<I, E>>) -> Seq<E>
    decreases ss.len(),
{
    if ss.len() == 0 {
        Seq::empty()
    } else {
        (match ss[0] {
            Step::HandleNetwork(e) => seq![e],
            _ => Seq::empty(),
        }) + handed_events(ss.drop_first())
    }
}

/// Whether a ready item closes the channel of a source.
pub open spec fn closes<I, E>(r: Ready<I, E>, s: Source) -> bool {
    ||| r is RpcClosed && s == Source::Rpc
    ||| r is NetworkClosed && s == Source::Network
}

/// While the swarm stream stays silent, the loop hands every intent to the
/// intent handler and every network event to the network-event handler, each
/// exactly once and in the order in which its channel delivered it.
pub proof fn lemma_fifo_per_channel<I, E>(rs: Seq<Ready<I, E>>)
    requires
        forall|k: int| 0 <= k < rs.len() ==> !(#[trigger] rs[k] is Swarm),
    ensures
        handed_intents(run(rs)) == intents(rs),
        handed_events(run(rs)) == events(rs),
    decreases rs.len(),
{
    if rs.len() > 0 {
        let rest = rs.drop_first();
        assert forall|k: int| 0 <= k < rest.len() implies !(#[trigger] rest[k] is Swarm) by {
            assert(rest[k] == rs[k + 1]);
        }
        lemma_fifo_per_channel(rest);
        assert(!(rs[0] is Swarm));
        let ss = run(rs);
        assert(ss == seq![step_of(rs[0])] + run(rest));
        assert(ss.drop_first() == run(rest));
    }
}

/// Each step advances the lead by one position, whatever the item.
pub proof fn lemma_turn_after<I, E>(d: Dispatcher, rs: Seq<Ready<I, E>>, k: nat)
    requires
        d.wf(),
        k <= rs.len(),
    ensures
        state_after(d, rs, k).wf(),
        state_after(d, rs, k).turn == (d.turn + k) % 3,
    decreases k,
{
    if k > 0 {
        lemma_turn_after(d.next(rs[0]), rs.drop_first(), (k - 1) as nat);
    }
}

/// A source stays polled until an item closes its channel.
pub proof fn lemma_still_polled<I, E>(d: Dispatcher, rs: Seq<Ready<I, E>>, k: nat, s: Source)
    requires
        d.polls(s),
        k <= rs.len(),
        forall|j: int| 0 <= j < k ==> !closes(#[trigger] rs[j], s),
    ensures
        state_after(d, rs, k).polls(s),
    decreases k,
{
    if k > 0 {
        let rest = rs.drop_first();
        assert(!closes(rs[0], s));
        assert forall|j: int| 0 <= j < k - 1 implies !closes(#[trigger] rest[j], s) by {
            assert(rest[j] == rs[j + 1]);
        }
        lemma_still_polled(d.next(rs[0]), rest, (k - 1) as nat, s);
    }
}

/// The source in the lead position comes first in the poll order when it is
/// polled at all.
pub proof fn lemma_lead_first(d: Dispatcher)
    requires
        d.wf(),
        d.polls(source_at(d.turn as int)),
    ensures
        d.order().len() > 0,
        d.order()[0] == source_at(d.turn as int),
{
    let a = source_at(d.turn as int);
    assert(source_at(d.turn + 1 - 1) == a);
    assert(d.leading(0) =~= Seq::<Source>::empty());
    assert(d.leading(1) =~= seq![a]);
    assert(d.leading(2).len() >= 1 && d.leading(2)[0] == a);
    assert(d.leading(3).len() >= 1 && d.leading(3)[0] == a);
}

/// Only polled sources appear in the poll order.
pub proof fn lemma_order_polled(d: Dispatcher, k: nat)
    ensures
        forall|i: int| 0 <= i < d.leading(k).len() ==> d.polls(#[trigger] d.leading(k)[i]),
    decreases k,
{
    if k > 0 {
        lemma_order_polled(d, (k - 1) as nat);
        let front = d.leading((k - 1) as nat);
        let s = source_at(d.turn + k - 1);
        let back = if d.polls(s) {
            seq![s]
        } else {
            Seq::<Source>::empty()
        };
        assert(d.leading(k) == front + back);
        assert forall|i: int| 0 <= i < d.leading(k).len() implies d.polls(#[trigger] d.leading(k)[i]) by {
            if i >= front.len() {
                assert(d.leading(k)[i] == back[i - front.len()]);
            } else {
                assert(d.leading(k)[i] == front[i]);
            }
        }
    }
}

/// Under sustained production no source is passed over: whatever comes
/// ready, a source whose channel stays open leads the poll order within
/// three waits, so when it is ready on that wait it is the one served.
pub proof fn lemma_no_starvation<I, E>(d: Dispatcher, rs: Seq<Ready<I, E>>, s: Source)
    requires
        d.wf(),
        d.polls(s),
        rs.len() >= 2,
        forall|j: int| 0 <= j < 2 ==> !closes(#[trigger] rs[j], s),
    ensures
        exists|k: nat| k < 3 && state_after(d, rs, k).order().len() > 0 && #[trigger] state_after(d, rs, k).order()[0] == s,
{
    let k: nat = ((slot(s) + 3 - d.turn) % 3) as nat;
    lemma_turn_after(d, rs, k);
    lemma_still_polled(d, rs, k, s);
    let e = state_after(d, rs, k);
    assert(e.turn == slot(s));
    assert(source_at(e.turn as int) == s);
    lemma_lead_first(e);
}

/// The dispatcher of a node booted without RPC.
pub open spec fn two_way() -> Dispatcher {
    Dispatcher { rpc: Channel::Absent, network: Channel::Open, turn: 0 }
}

/// The dispatcher of a node booted with RPC.
pub open spec fn three_way() -> Dispatcher {
    Dispatcher { rpc: Channel::Open, network: Channel::Open, turn: 0 }
}

proof fn lemma_agree<I, E>(d1: Dispatcher, d2: Dispatcher, rs: Seq<Ready<I, E>>, k: nat)
    requires
        d1.turn == d2.turn,
        d1.network == d2.network,
        forall|j: int| 0 <= j < rs.len() ==> origin(#[trigger] rs[j]) != Source::Rpc,
    ensures
        state_after(d1, rs, k).turn == state_after(d2, rs, k).turn,
        state_after(d1, rs, k).network == state_after(d2, rs, k).network,
        state_after(d1, rs, k).rpc == d1.rpc,
        state_after(d2, rs, k).rpc == d2.rpc,
    decreases k,
{
    if k > 0 && rs.len() > 0 {
        let rest = rs.drop_first();
        assert(origin(rs[0]) != Source::Rpc);
        assert forall|j: int| 0 <= j < rest.len() implies origin(#[trigger] rest[j]) != Source::Rpc by {
            assert(rest[j] == rs[j + 1]);
        }
        lemma_agree(d1.next(rs[0]), d2.next(rs[0]), rest, (k - 1) as nat);
    }
}

/// With RPC disabled the dispatcher never polls an RPC channel, and on the
/// items of its two sources it moves through the same states as one with
/// RPC enabled, but for the RPC channel: same lead, same network channel,
/// and the same answer for whether the swarm and the network are polled.
/// The steps it takes depend on the items alone, so they are the same too.
pub proof fn lemma_mode_equivalence<I, E>(rs: Seq<Ready<I, E>>, k: nat)
    requires
        forall|j: int| 0 <= j < rs.len() ==> origin(#[trigger] rs[j]) != Source::Rpc,
    ensures
        !state_after(two_way(), rs, k).polls(Source::Rpc),
        !state_after(two_way(), rs, k).order().contains(Source::Rpc),
        state_after(two_way(), rs, k).turn == state_after(three_way(), rs, k).turn,
        state_after(two_way(), rs, k).polls(Source::Swarm) == state_after(three_way(), rs, k).polls(
            Source::Swarm,
        ),
        state_after(two_way(), rs, k).polls(Source::Network) == state_after(three_way(), rs, k).polls(
            Source::Network,
        ),
{
    lemma_agree(two_way(), three_way(), rs, k);
    let d = state_after(two_way(), rs, k);
    lemma_order_polled(d, 3);
    if d.order().contains(Source::Rpc) {
        let i = choose|i: int| 0 <= i < d.order().len() && d.order()[i] == Source::Rpc;
        assert(d.polls(d.leading(3)[i]));
    }
}

} // verus!
