use futures::sync::mpsc::UnboundedSender;
use vstd::prelude::*;

use crate::allocator::IdAllocator;
use crate::annotate::{annotate_message, annotated};
use crate::envelope::{json_string_of, wire_text, Envelope};
use crate::registry::{after_broadcast, Handed, Registry};

verus! {

/// The wire text of the welcome that tells connection `id` its own id.
pub open spec fn welcome_wire(id: usize) -> Seq<char> {
    wire_text(id as nat, None, true)
}

/// The wire text that relays the raw chat text `raw` sent by `id`.
pub open spec fn relay_wire(id: usize, raw: Seq<char>) -> Seq<char> {
    wire_text(id as nat, Some(json_string_of(annotated(raw))), false)
}

/// The shared state of all connections: the id allocator and the registry.
pub struct Hub {
    ids: IdAllocator,
    registry: Registry,
}

impl Hub {
    /// The registry is well formed and holds only ids handed out before.
    pub closed spec fn wf(&self) -> bool {
        &&& self.registry.wf()
        &&& forall|id: usize| #[trigger] self.registry@.contains_key(id) ==> id < self.ids@
    }

    /// The open connections, each with the payloads handed to its queue.
    pub closed spec fn connections(&self) -> Handed {
        self.registry@
    }

    /// The id that the next connection gets.
    pub closed spec fn upcoming_id(&self) -> nat {
        self.ids@
    }

    /// A hub with no connections, whose first connection gets id 1.
    pub fn new() -> (r: Hub)
        ensures
            r.wf(),
            r.connections() == Handed::empty(),
            r.upcoming_id() == 1,
    {
        Hub { ids: IdAllocator::new(), registry: Registry::new() }
    }

    /// Whether another connection can still be given an id.
    pub fn can_connect(&self) -> (r: bool)
        ensures
            r == (self.upcoming_id() < usize::MAX),
    {
        self.ids.has_next()
    }

    /// Starts the life of a connection whose outbound queue is fed through
    /// `handle`: gives it the next id, registers it, and hands it (and only
    /// it) the welcome that announces that id. Returns the id.
    pub fn connect_user(&mut self, handle: UnboundedSender<String>) -> (r: usize)
        requires
            old(self).wf(),
            old(self).upcoming_id() < usize::MAX,
        ensures
            final(self).wf(),
            r == old(self).upcoming_id(),
            final(self).upcoming_id() == old(self).upcoming_id() + 1,
            !old(self).connections().contains_key(r),
            forall|id: usize| #[trigger] old(self).connections().contains_key(id) ==> id < r,
            final(self).connections() == old(self).connections().insert(
                r,
                seq![welcome_wire(r)],
            ),
    {
        let id = self.ids.next_id();
        self.registry.insert(id, handle);
        self.registry.send_to(id, Envelope::welcome(id).encode());
        assert(self.registry@ =~= old(self).registry@.insert(id, seq![welcome_wire(id)]));
        id
    }

    /// Handles one inbound frame of connection `my_id`; `text` is its text,
    /// or `None` for a frame that is not text, which is ignored. The text is
    /// annotated and relayed to every other open connection.
    pub fn user_message(&mut self, my_id: usize, text: Option<&str>)
        requires
            old(self).wf(),
        ensures
            final(self).wf(),
            final(self).upcoming_id() == old(self).upcoming_id(),
            final(self).connections() == match text {
                None => old(self).connections(),
                Some(t) => after_broadcast(old(self).connections(), my_id, relay_wire(my_id, t@)),
            },
    {
        match text {
            None => {},
            Some(t) => {
                let envelope = Envelope::relay(my_id, annotate_message(t));
                self.registry.broadcast(my_id, &envelope.encode());
            },
        }
    }

    /// Ends the life of connection `my_id`: deregisters it, which drops its
    /// queue. Calling it again, or for an id never registered, does nothing.
    pub fn user_disconnected(&mut self, my_id: usize)
        requires
            old(self).wf(),
        ensures
            final(self).wf(),
            final(self).upcoming_id() == old(self).upcoming_id(),
            final(self).connections() == old(self).connections().remove(my_id),
    {
        self.registry.remove(my_id);
    }
}

/// Ids handed out by successive `connect_user` calls are pairwise distinct
/// and strictly increasing, also across disconnections. `hubs[k]` is the hub
/// when call `k` is made and `ids[k]` what it returned; `hubs[k + 1]` is the
/// hub at the next such call, after any other calls in between, none of which
/// lowers the upcoming id.
pub proof fn lemma_connection_ids_increase(hubs: Seq<Hub>, ids: Seq<usize>)
    requires
        hubs.len() == ids.len() + 1,
        forall|k: int| 0 <= k < ids.len() ==> #[trigger] ids[k] == hubs[k].upcoming_id(),
        forall|k: int|
            0 <= k < ids.len() ==> #[trigger] hubs[k + 1].upcoming_id() >= hubs[k].upcoming_id()
                + 1,
    ensures
        forall|i: int, j: int| 0 <= i < j < ids.len() ==> ids[i] < ids[j],
{
    assert forall|i: int, j: int| 0 <= i < j < ids.len() implies ids[i] < ids[j] by {
        lemma_upcoming_grows(hubs, ids, i, j);
    }
}

proof fn lemma_upcoming_grows(hubs: Seq<Hub>, ids: Seq<usize>, i: int, j: int)
    requires
        hubs.len() == ids.len() + 1,
        forall|k: int|
            0 <= k < ids.len() ==> #[trigger] hubs[k + 1].upcoming_id() >= hubs[k].upcoming_id()
                + 1,
        0 <= i < j <= ids.len(),
    ensures
        hubs[j].upcoming_id() >= hubs[i].upcoming_id() + (j - i),
    decreases j - i,
{
    if j > i + 1 {
        lemma_upcoming_grows(hubs, ids, i, j - 1);
    }
    assert(hubs[(j - 1) + 1].upcoming_id() >= hubs[j - 1].upcoming_id() + 1);
}

} // verus!
