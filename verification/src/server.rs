//! The registry of live viewer connections and the fan-out of envelopes to
//! them.
//!
//! The registry keeps, for every registered connection, the handle through
//! which that connection is reached. It never touches a transport itself:
//! [`WebsocketServer::broadcast`] answers with the hand-offs to make, one per
//! connection registered at the moment of the call, and its caller makes them.

use crate::json::EncodeError;
use crate::models::{statistics_json, statistics_to_json};
use crate::poller::StatsPoller;
use std::collections::HashMap;
use vstd::prelude::*;
use vstd::std_specs::iter::IteratorSpec;

verus! {

broadcast use vstd::std_specs::hash::group_hash_axioms;

/// An envelope on its way to one viewer.
#[derive(Clone, Debug, PartialEq, Eq)]
pub struct Message(pub String);

impl View for Message {
    type V = Seq<char>;

    open spec fn view(&self) -> Seq<char> {
        self.0@
    }
}

/// Request to register the connection reached through `addr`.
pub struct Connect<H> {
    pub addr: H,
}

/// Request to drop the registration held under `id`.
#[derive(Clone, Copy, Debug, PartialEq, Eq, Structural)]
pub struct Disconnect {
    pub id: usize,
}

/// One hand-off of a broadcast: `message` goes to the connection registered
/// under `id`, through `recipient`.
pub struct Delivery<'a, H> {
    pub id: usize,
    pub recipient: &'a H,
    pub message: Message,
}

/// `plan` hands the text `envelope` to every connection in `sessions`, once
/// each and through its own handle, and to nobody else.
pub open spec fn fans_out<H>(
    plan: Seq<Delivery<'_, H>>,
    sessions: Map<usize, H>,
    envelope: Seq<char>,
) -> bool {
    &&& plan.len() == sessions.len()
    &&& forall|i: int|
        0 <= i < plan.len() ==> {
            &&& sessions.contains_key(#[trigger] plan[i].id)
            &&& *plan[i].recipient == sessions[plan[i].id]
            &&& plan[i].message@ == envelope
        }
    &&& forall|i: int, j: int| 0 <= i < j < plan.len() ==> plan[i].id != plan[j].id
    &&& forall|id: usize|
        sessions.contains_key(id) ==> exists|i: int| 0 <= i < plan.len() && #[trigger] plan[i].id == id
}

/// `list` names every connection in `sessions` once, with its own handle, and
/// nothing else.
pub open spec fn enumerates<H>(list: Seq<(usize, &H)>, sessions: Map<usize, H>) -> bool {
    &&& list.len() == sessions.len()
    &&& forall|i: int|
        0 <= i < list.len() ==> {
            &&& sessions.contains_key((#[trigger] list[i]).0)
            &&& *list[i].1 == sessions[list[i].0]
        }
    &&& forall|i: int, j: int| 0 <= i < j < list.len() ==> list[i].0 != list[j].0
    &&& forall|id: usize|
        sessions.contains_key(id) ==> exists|i: int| 0 <= i < list.len() && (#[trigger] list[i]).0 == id
}

/// The id reached from `start` after `steps` increments, where the largest id
/// is followed by zero.
pub open spec fn probe(start: usize, steps: nat) -> usize {
    if start + steps <= usize::MAX {
        (start + steps) as usize
    } else {
        (start + steps - usize::MAX - 1) as usize
    }
}

/// `id` lies `steps` increments after `candidate`, is not in `taken`, and
/// every id passed on the way is.
pub open spec fn free_after(taken: Set<usize>, candidate: usize, id: usize, steps: nat) -> bool {
    &&& steps <= usize::MAX
    &&& id == probe(candidate, steps)
    &&& !taken.contains(id)
    &&& forall|earlier: nat| earlier < steps ==> taken.contains(#[trigger] probe(candidate, earlier))
}

/// `id` is the first id at or after `candidate`, in cyclic order, that is not
/// in `taken`.
pub open spec fn first_free(taken: Set<usize>, candidate: usize, id: usize) -> bool {
    exists|steps: nat| #[trigger] free_after(taken, candidate, id, steps)
}

/// The ids passed in the first `steps` increments from `start`.
spec fn probed(start: usize, steps: nat) -> Set<usize>
    decreases steps,
{
    if steps == 0 {
        Set::empty()
    } else {
        probed(start, (steps - 1) as nat).insert(probe(start, (steps - 1) as nat))
    }
}

proof fn lemma_probed(start: usize, steps: nat)
    requires
        steps <= usize::MAX + 1,
    ensures
        probed(start, steps).finite(),
        probed(start, steps).len() == steps,
        forall|id: usize| #[trigger]
            probed(start, steps).contains(id) <==> exists|k: nat|
                k < steps && id == #[trigger] probe(start, k),
    decreases steps,
{
    if steps > 0 {
        let before = (steps - 1) as nat;
        lemma_probed(start, before);
        let last = probe(start, before);
        assert(!probed(start, before).contains(last)) by {
            if probed(start, before).contains(last) {
                let k = choose|k: nat| k < before && last == #[trigger] probe(start, k);
                assert(probe(start, k) != probe(start, before));
            }
        }
        assert forall|id: usize| #[trigger]
            probed(start, steps).contains(id) implies exists|k: nat|
            k < steps && id == #[trigger] probe(start, k) by {
            if id == last {
                assert(before < steps && id == probe(start, before));
            } else {
                let k = choose|k: nat| k < before && id == #[trigger] probe(start, k);
                assert(k < steps && id == probe(start, k));
            }
        }
    }
}

/// Ids that are all taken cannot outnumber the taken ones.
proof fn lemma_probes_fit(taken: Set<usize>, start: usize, steps: nat)
    requires
        taken.finite(),
        steps <= usize::MAX + 1,
        forall|k: nat| k < steps ==> taken.contains(#[trigger] probe(start, k)),
    ensures
        steps <= taken.len(),
{
    lemma_probed(start, steps);
    assert(probed(start, steps).subset_of(taken));
    vstd::set_lib::lemma_len_subset(probed(start, steps), taken);
}

/// The first free id after a candidate is determined by the candidate and
/// the ids that are taken.
pub proof fn lemma_first_free_unique(taken: Set<usize>, candidate: usize, a: usize, b: usize)
    requires
        first_free(taken, candidate, a),
        first_free(taken, candidate, b),
    ensures
        a == b,
{
    let i = choose|steps: nat| #[trigger] free_after(taken, candidate, a, steps);
    let j = choose|steps: nat| #[trigger] free_after(taken, candidate, b, steps);
    if i < j {
        assert(taken.contains(probe(candidate, i)));
    } else if j < i {
        assert(taken.contains(probe(candidate, j)));
    }
}

/// Calls `rand::random::<usize>()`, which draws from the thread's random
/// number generator. Nothing is claimed about the number drawn.
#[verifier::external_body]
fn random_id() -> usize {
    rand::random::<usize>()
}

/// The shared table of live viewer connections: each registered id with the
/// handle that reaches its connection.
pub struct WebsocketServer<H> {
    sessions: HashMap<usize, H>,
}

impl<H> View for WebsocketServer<H> {
    type V = Map<usize, H>;

    closed spec fn view(&self) -> Map<usize, H> {
        self.sessions@
    }
}

impl<H> Default for WebsocketServer<H> {
    /// A registry with no connection in it.
    fn default() -> (server: Self)
        ensures
            server@ == Map::<usize, H>::empty(),
    {
        WebsocketServer::new()
    }
}

impl<H> WebsocketServer<H> {
    /// A registry with no connection in it.
    pub fn new() -> (server: Self)
        ensures
            server@ == Map::<usize, H>::empty(),
    {
        WebsocketServer { sessions: HashMap::new() }
    }

    /// The number of registered connections.
    pub fn len(&self) -> (n: usize)
        ensures
            n == self@.len(),
            self@.dom().finite(),
    {
        self.sessions.len()
    }

    /// Whether a connection is registered under `id`.
    pub fn contains(&self, id: usize) -> (held: bool)
        ensures
            held == self@.contains_key(id),
    {
        self.sessions.contains_key(&id)
    }

    /// Registers a connection under the first id at or after `candidate` that
    /// no live connection holds, and returns that id.
    pub fn register_at(&mut self, candidate: usize, msg: Connect<H>) -> (id: usize)
        ensures
            first_free(old(self)@.dom(), candidate, id),
            !old(self)@.contains_key(id),
            final(self)@ == old(self)@.insert(id, msg.addr),
            final(self)@ == after(old(self)@, RegistryOp::Register { id, handle: msg.addr }),
            final(self)@.len() == old(self)@.len() + 1,
    {
        let mut id = candidate;
        let ghost mut steps: nat = 0;
        let ghost taken = self.sessions@.dom();
        assert(taken.len() == self.sessions.len());
        while self.sessions.contains_key(&id)
            invariant
                self.sessions@ == old(self).sessions@,
                taken == self.sessions@.dom(),
                taken.finite(),
                taken.len() <= usize::MAX,
                steps <= taken.len(),
                id == probe(candidate, steps),
                forall|earlier: nat| earlier < steps ==> taken.contains(#[trigger] probe(candidate, earlier)),
            decreases taken.len() - steps,
        {
            proof {
                lemma_probes_fit(taken, candidate, steps + 1);
                steps = steps + 1;
            }
            id = if id == usize::MAX { 0 } else { id + 1 };
        }
        assert(free_after(taken, candidate, id, steps));
        self.sessions.insert(id, msg.addr);
        id
    }

    /// Registers a connection under an id that no live connection holds, and
    /// returns that id. The id is drawn at random and, should it be taken,
    /// moved on to the first free one after it.
    pub fn register(&mut self, msg: Connect<H>) -> (id: usize)
        ensures
            !old(self)@.contains_key(id),
            final(self)@ == old(self)@.insert(id, msg.addr),
            final(self)@ == after(old(self)@, RegistryOp::Register { id, handle: msg.addr }),
            final(self)@.len() == old(self)@.len() + 1,
    {
        let candidate = random_id();
        self.register_at(candidate, msg)
    }

    /// Drops the registration held under `msg.id` and returns its handle.
    /// Dropping an id that is not registered changes nothing.
    pub fn deregister(&mut self, msg: Disconnect) -> (released: Option<H>)
        ensures
            final(self)@ == old(self)@.remove(msg.id),
            final(self)@ == after(old(self)@, RegistryOp::Deregister { id: msg.id }),
            released == if old(self)@.contains_key(msg.id) {
                Some(old(self)@[msg.id])
            } else {
                None
            },
            final(self)@.len() == old(self)@.len() - if old(self)@.contains_key(msg.id) {
                1int
            } else {
                0int
            },
    {
        self.sessions.remove(&msg.id)
    }

    /// Every registered connection with its handle, each once and in no
    /// particular order: the registered set as it stands at this moment.
    pub fn connections<'a>(&'a self) -> (list: Vec<(usize, &'a H)>)
        ensures
            enumerates(list@, self@),
    {
        let mut list: Vec<(usize, &'a H)> = Vec::new();
        for entry in it: self.sessions.iter()
            invariant
                it.seq() == self.sessions.iter().remaining(),
                it.seq().no_duplicates(),
                list@.len() == it.index(),
                forall|i: int|
                    0 <= i < list@.len() ==> {
                        &&& (#[trigger] list@[i]).0 == *it.seq()[i].0
                        &&& list@[i].1 == it.seq()[i].1
                    },
        {
            let (id, recipient) = entry;
            assert(entry == it.seq()[it.index()]);
            list.push((*id, recipient));
        }
        proof {
            let walked = self.sessions.iter().remaining();
            assert forall|i: int, j: int| 0 <= i < j < list@.len() implies list@[i].0
                != list@[j].0 by {
                assert(self.sessions@.contains_key(*walked[i].0));
                assert(self.sessions@.contains_key(*walked[j].0));
                if list@[i].0 == list@[j].0 {
                    assert(walked[i] == walked[j]);
                }
            }
            assert forall|id: usize| self.sessions@.contains_key(id) implies exists|i: int|
                0 <= i < list@.len() && (#[trigger] list@[i]).0 == id by {
                let pair = (&id, &self.sessions@[id]);
                assert(walked.contains(pair));
                let i = choose|i: int| 0 <= i < walked.len() && walked[i] == pair;
                assert(list@[i].0 == id);
            }
        }
        list
    }

    /// Plans the delivery of `envelope` to every connection registered now.
    ///
    /// The plan holds one hand-off per registered id, in no particular order.
    /// Making the hand-offs is left to the caller, so a recipient that is slow
    /// or gone can neither hold up the others nor fail the broadcast.
    pub fn broadcast<'a>(&'a self, envelope: &Message) -> (plan: Vec<Delivery<'a, H>>)
        ensures
            fans_out(plan@, self@, envelope@),
    {
        let list = self.connections();
        let mut plan: Vec<Delivery<'a, H>> = Vec::new();
        let mut i: usize = 0;
        while i < list.len()
            invariant
                i <= list.len(),
                plan@.len() == i,
                forall|k: int|
                    0 <= k < i ==> {
                        &&& (#[trigger] plan@[k]).id == list@[k].0
                        &&& plan@[k].recipient == list@[k].1
                        &&& plan@[k].message@ == envelope@
                    },
            decreases list.len() - i,
        {
            let (id, recipient) = list[i];
            plan.push(Delivery { id, recipient, message: Message(envelope.0.clone()) });
            i += 1;
        }
        proof {
            assert forall|id: usize| self@.contains_key(id) implies exists|k: int|
                0 <= k < plan@.len() && #[trigger] plan@[k].id == id by {
                let k = choose|k: int| 0 <= k < list@.len() && (#[trigger] list@[k]).0 == id;
                assert(plan@[k].id == id);
            }
        }
        plan
    }

    /// Plans what one tick of the poller sends out, given the envelope text
    /// that was made for it: a broadcast of that text, or nothing when there
    /// is no text.
    pub fn publish<'a>(&'a self, envelope: Result<String, EncodeError>) -> (plan: Vec<
        Delivery<'a, H>,
    >)
        ensures
            match envelope {
                Ok(text) => fans_out(plan@, self@, text@),
                Err(_) => plan@.len() == 0,
            },
    {
        match envelope {
            Ok(text) => self.broadcast(&Message(text)),
            Err(_) => Vec::new(),
        }
    }

    /// Plans what one tick of the poller sends out, given the store's answers
    /// for that tick.
    ///
    /// A tick with a missing answer, or one of a cancelled poller, sends
    /// nothing. Any other tick sends the envelope that announces its snapshot
    /// to every registered connection, once each, and to nobody else.
    pub fn get_statistics<'a>(&'a self, poller: &StatsPoller, counts: &Vec<Option<u64>>) -> (plan:
        Vec<Delivery<'a, H>>)
        ensures
            match poller@.snapshot(counts@) {
                Some(snapshot) => fans_out(plan@, self@, statistics_json(snapshot)),
                None => plan@.len() == 0,
            },
    {
        match poller.snapshot(counts) {
            Some(stats) => self.publish(statistics_to_json(&stats)),
            None => Vec::new(),
        }
    }
}

/// One completed call on the registry, as a history records it.
pub enum RegistryOp<H> {
    /// `register` returned `id` for the connection reached through `handle`.
    Register { id: usize, handle: H },
    /// `deregister` was called for `id`.
    Deregister { id: usize },
}

/// The registry after one more call.
pub open spec fn after<H>(sessions: Map<usize, H>, op: RegistryOp<H>) -> Map<usize, H> {
    match op {
        RegistryOp::Register { id, handle } => sessions.insert(id, handle),
        RegistryOp::Deregister { id } => sessions.remove(id),
    }
}

/// The registry after a history of calls, starting empty.
pub open spec fn replay<H>(history: Seq<RegistryOp<H>>) -> Map<usize, H>
    decreases history.len(),
{
    if history.len() == 0 {
        Map::empty()
    } else {
        after(replay(history.drop_last()), history.last())
    }
}

/// A history as the registry produces it: every registration was given an id
/// that no connection held at that moment.
pub open spec fn fresh_ids<H>(history: Seq<RegistryOp<H>>) -> bool
    decreases history.len(),
{
    if history.len() == 0 {
        true
    } else {
        &&& fresh_ids(history.drop_last())
        &&& history.last() matches RegistryOp::Register { id, .. } ==> !replay(
            history.drop_last(),
        ).contains_key(id)
    }
}

/// The number of registrations in a history.
pub open spec fn registrations<H>(history: Seq<RegistryOp<H>>) -> nat
    decreases history.len(),
{
    if history.len() == 0 {
        0
    } else {
        registrations(history.drop_last()) + if history.last() is Register {
            1nat
        } else {
            0nat
        }
    }
}

/// The number of deregistrations in a history that removed a connection.
pub open spec fn removals<H>(history: Seq<RegistryOp<H>>) -> nat
    decreases history.len(),
{
    if history.len() == 0 {
        0
    } else {
        removals(history.drop_last()) + match history.last() {
            RegistryOp::Deregister { id } if replay(history.drop_last()).contains_key(id) => 1nat,
            _ => 0nat,
        }
    }
}

/// After any history of registrations and deregistrations, the registry
/// holds as many connections as were registered and not removed since.
pub proof fn lemma_size_follows_history<H>(history: Seq<RegistryOp<H>>)
    requires
        fresh_ids(history),
    ensures
        replay(history).dom().finite(),
        replay(history).len() == registrations(history) - removals(history),
    decreases history.len(),
{
    if history.len() > 0 {
        lemma_size_follows_history(history.drop_last());
    }
}

/// Deregistering an id a second time changes nothing and releases nothing.
pub proof fn lemma_deregister_idempotent<H>(sessions: Map<usize, H>, id: usize)
    ensures
        !sessions.remove(id).contains_key(id),
        sessions.remove(id).remove(id) == sessions.remove(id),
{
    assert(sessions.remove(id).remove(id) =~= sessions.remove(id));
}

/// A broadcast reaches exactly the ids registered when it was planned: every
/// one of them, and no id that was free then, whoever registers under it
/// later.
pub proof fn lemma_broadcast_reaches_registered<H>(
    plan: Seq<Delivery<'_, H>>,
    sessions: Map<usize, H>,
    envelope: Seq<char>,
    id: usize,
)
    requires
        fans_out(plan, sessions, envelope),
    ensures
        sessions.contains_key(id) <==> exists|i: int|
            0 <= i < plan.len() && #[trigger] plan[i].id == id,
{
}

/// The registry after the registrations under each of `ids` were dropped in
/// turn.
pub open spec fn after_leaving<H>(sessions: Map<usize, H>, ids: Seq<usize>) -> Map<usize, H>
    decreases ids.len(),
{
    if ids.len() == 0 {
        sessions
    } else {
        after_leaving(sessions, ids.drop_last()).remove(ids.last())
    }
}

/// Once every registered connection has given its registration back, in
/// whatever order and however often, the registry is empty.
pub proof fn lemma_registry_drains<H>(sessions: Map<usize, H>, ids: Seq<usize>)
    requires
        forall|id: usize| sessions.contains_key(id) ==> ids.contains(id),
    ensures
        after_leaving(sessions, ids) == Map::<usize, H>::empty(),
{
    lemma_leaving(sessions, ids);
    assert(after_leaving(sessions, ids) =~= Map::<usize, H>::empty());
}

proof fn lemma_leaving<H>(sessions: Map<usize, H>, ids: Seq<usize>)
    ensures
        forall|id: usize| #[trigger]
            after_leaving(sessions, ids).contains_key(id) <==> sessions.contains_key(id)
                && !ids.contains(id),
    decreases ids.len(),
{
    if ids.len() > 0 {
        let earlier = ids.drop_last();
        lemma_leaving(sessions, earlier);
        assert forall|id: usize| #[trigger]
            after_leaving(sessions, ids).contains_key(id) <==> sessions.contains_key(id)
                && !ids.contains(id) by {
            assert(after_leaving(sessions, earlier).contains_key(id) <==> sessions.contains_key(
                id,
            ) && !earlier.contains(id));
            if ids.contains(id) {
                let i = choose|i: int| 0 <= i < ids.len() && ids[i] == id;
                if i < earlier.len() {
                    assert(earlier[i] == id);
                }
            }
            if earlier.contains(id) {
                let i = choose|i: int| 0 <= i < earlier.len() && earlier[i] == id;
                assert(ids[i] == id);
            }
            if id == ids.last() {
                assert(ids[ids.len() - 1] == id);
            }
        }
    }
}

} // verus!
