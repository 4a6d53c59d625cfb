use std::collections::HashMap;
use futures::sync::mpsc::UnboundedSender;
use vstd::prelude::*;
use vstd::std_specs::iter::IteratorSpec;

verus! {

broadcast use vstd::std_specs::hash::group_hash_axioms;

/// The sending side of a futures unbounded channel: a connection's outbound
/// queue, carried opaquely.
#[verifier::external_type_specification]
#[verifier::external_body]
#[verifier::reject_recursive_types(T)]
pub struct ExUnboundedSender<T>(UnboundedSender<T>);

/// Relies on futures' `UnboundedSender::unbounded_send`: queues `payload` on
/// the connection's outbound queue without blocking. When the receiving side
/// has gone, the payload is dropped; that failure is ignored here. Nothing is
/// promised of the queue, whose state the receiving task also changes. (The
/// call panics only once `usize::MAX >> 1` messages wait in one queue, which
/// memory does not allow.)
#[verifier::external_body]
fn enqueue(handle: &UnboundedSender<String>, payload: String) {
    let _ = handle.unbounded_send(payload);
}

/// The registered connections and what was handed to each of their queues.
pub type Handed = Map<usize, Seq<Seq<char>>>;

/// `m` after `payload` is handed to every connection but `exclude`.
pub open spec fn after_broadcast(m: Handed, exclude: usize, payload: Seq<char>) -> Handed {
    Map::new(
        |id: usize| m.contains_key(id),
        |id: usize|
            if id == exclude {
                m[id]
            } else {
                m[id].push(payload)
            },
    )
}

/// The open connections, each with the sending side of its outbound queue.
pub struct Registry {
    users: HashMap<usize, UnboundedSender<String>>,
    handed: Ghost<Handed>,
}

impl View for Registry {
    /// Each registered id, with the payloads handed to its queue since it
    /// was registered, oldest first.
    type V = Handed;

    closed spec fn view(&self) -> Handed {
        self.handed@
    }
}

impl Registry {
    /// Every registered id has exactly one queue.
    pub closed spec fn wf(&self) -> bool {
        self.users@.dom() == self.handed@.dom()
    }

    /// An empty registry.
    pub fn new() -> (r: Registry)
        ensures
            r.wf(),
            r@ == Handed::empty(),
    {
        Registry { users: HashMap::new(), handed: Ghost(Map::empty()) }
    }

    /// Whether `id` is registered.
    pub fn contains(&self, id: usize) -> (r: bool)
        requires
            self.wf(),
        ensures
            r == self@.contains_key(id),
    {
        self.users.contains_key(&id)
    }

    /// Registers `id` with the sending side of its queue. The id must be
    /// fresh.
    pub fn insert(&mut self, id: usize, handle: UnboundedSender<String>)
        requires
            old(self).wf(),
            !old(self)@.contains_key(id),
        ensures
            final(self).wf(),
            final(self)@ == old(self)@.insert(id, Seq::empty()),
    {
        self.users.insert(id, handle);
        self.handed = Ghost(self.handed@.insert(id, Seq::empty()));
    }

    /// Deregisters `id`, dropping its queue; nothing happens when it is not
    /// registered.
    pub fn remove(&mut self, id: usize)
        requires
            old(self).wf(),
        ensures
            final(self).wf(),
            final(self)@ == old(self)@.remove(id),
    {
        self.users.remove(&id);
        self.handed = Ghost(self.handed@.remove(id));
    }

    /// Hands `payload` to the queue of `id` alone; nothing happens when `id`
    /// is not registered.
    pub fn send_to(&mut self, id: usize, payload: String)
        requires
            old(self).wf(),
        ensures
            final(self).wf(),
            final(self)@ == if old(self)@.contains_key(id) {
                old(self)@.insert(id, old(self)@[id].push(payload@))
            } else {
                old(self)@
            },
    {
        match self.users.get(&id) {
            Some(handle) => {
                let ghost p = payload@;
                enqueue(handle, payload);
                self.handed = Ghost(self.handed@.insert(id, self.handed@[id].push(p)));
                assert(self.users@.dom() =~= self.handed@.dom());
            },
            None => {},
        }
    }

    /// Hands `payload` to the queue of every registered id but `exclude`.
    /// A queue whose receiving side has gone drops it; the others still get
    /// it.
    pub fn broadcast(&mut self, exclude: usize, payload: &String)
        requires
            old(self).wf(),
        ensures
            final(self).wf(),
            final(self)@ == after_broadcast(old(self)@, exclude, payload@),
    {
        let ghost start = self.handed@;
        let ghost p = payload@;
        let ghost all: Seq<usize> = self.users.keys().remaining().unref();
        let ghost mut done: Seq<usize> = Seq::empty();
        for id in it: self.users.keys()
            invariant
                self.users@.dom() == start.dom(),
                self.handed@.dom() == start.dom(),
                it.seq().unref() == all,
                all.no_duplicates(),
                all.to_set() == start.dom(),
                done == all.take(it.index() as int),
                forall|k: usize| #[trigger]
                    start.contains_key(k) ==> self.handed@[k] == if k != exclude && done.contains(k) {
                        start[k].push(p)
                    } else {
                        start[k]
                    },
        {
            proof {
                assert(all[it.index() as int] == *id);
                assert(!done.contains(*id)) by {
                    if done.contains(*id) {
                        let j = choose|j: int| 0 <= j < done.len() && done[j] == *id;
                        assert(all[j] == all[it.index() as int]);
                    }
                }
                assert(all.to_set().contains(*id));
                assert(self.users@.contains_key(*id));
                assert(all.take(it.index() + 1) =~= done.push(*id));
                let ghost prev = done;
                done = done.push(*id);
                assert forall|k: usize| #[trigger] done.contains(k) == (prev.contains(k) || k == *id) by {
                    if prev.contains(k) {
                        let j = choose|j: int| 0 <= j < prev.len() && prev[j] == k;
                        assert(done[j] == k);
                    }
                    if k == *id {
                        assert(done[prev.len() as int] == k);
                    }
                }
            }
            if *id != exclude {
                match self.users.get(id) {
                    Some(handle) => {
                        enqueue(handle, payload.clone());
                        self.handed = Ghost(self.handed@.insert(*id, self.handed@[*id].push(p)));
                        assert(self.handed@.dom() =~= start.dom());
                    },
                    None => {},
                }
            }
        }
        proof {
            assert(done =~= all);
            assert forall|k: usize| start.contains_key(k) implies done.contains(k) by {
                assert(all.to_set().contains(k));
            }
        }
        assert(self.handed@ =~= after_broadcast(start, exclude, p));
    }
}

/// A broadcast hands the payload to every registered connection but the
/// excluded one, which gets nothing, and registers or deregisters no one.
pub proof fn lemma_broadcast_excludes_sender(m: Handed, exclude: usize, payload: Seq<char>)
    ensures
        after_broadcast(m, exclude, payload).dom() == m.dom(),
        m.contains_key(exclude) ==> after_broadcast(m, exclude, payload)[exclude] == m[exclude],
        forall|id: usize|
            #[trigger] m.contains_key(id) && id != exclude ==> after_broadcast(
                m,
                exclude,
                payload,
            )[id] == m[id].push(payload),
{
    assert(after_broadcast(m, exclude, payload).dom() =~= m.dom());
}

/// Removing an id twice is the same as removing it once, removing an id that
/// is not registered changes nothing, and a removal leaves every other id as
/// it was.
pub proof fn lemma_remove_idempotent(m: Handed, id: usize)
    ensures
        m.remove(id).remove(id) == m.remove(id),
        !m.contains_key(id) ==> m.remove(id) == m,
        forall|other: usize|
            other != id ==> (#[trigger] m.remove(id).contains_key(other) == m.contains_key(other)
                && (m.contains_key(other) ==> m.remove(id)[other] == m[other])),
{
    assert(m.remove(id).remove(id) =~= m.remove(id));
    if !m.contains_key(id) {
        assert(m.remove(id) =~= m);
    }
}

} // verus!
