//! The candidate pipeline's queues: a plain FIFO queue, and the shared
//! candidate queue whose companion set guarantees that no two candidates
//! with the same address are ever handed to the checker.

use vstd::prelude::*;

use crate::proto::Protocol;
use crate::strutil::str_eq;
use vstd::std_specs::cmp::PartialEqSpec;

verus! {

/// A first-in, first-out queue.
#[derive(Clone, Debug)]
pub struct FifoQueue<T> {
    data: Vec<T>,
}

impl<T: PartialEq> FifoQueue<T> {
    /// The queued items, oldest first.
    pub closed spec fn items(&self) -> Seq<T> {
        self.data@
    }

    /// An empty queue.
    pub fn new() -> (r: FifoQueue<T>)
        ensures
            r.items() == Seq::<T>::empty(),
    {
        FifoQueue { data: Vec::new() }
    }

    /// Appends an item at the back.
    pub fn push(&mut self, value: T)
        ensures
            final(self).items() == old(self).items().push(value),
    {
        self.data.push(value);
    }

    /// Removes and returns the oldest item.
    pub fn pop(&mut self) -> (r: T)
        requires
            old(self).items().len() > 0,
        ensures
            r == old(self).items()[0],
            final(self).items() == old(self).items().drop_first(),
    {
        let r = self.data.remove(0);
        proof {
            assert(self.data@ =~= old(self).items().drop_first());
        }
        r
    }

    /// How many items are queued.
    pub fn qsize(&self) -> (r: usize)
        ensures
            r == self.items().len(),
    {
        self.data.len()
    }

    /// Whether the queue is empty.
    pub fn is_empty(&self) -> (r: bool)
        ensures
            r == (self.items().len() == 0),
    {
        self.data.is_empty()
    }

    /// Whether `value` is absent from the queue.  For a type whose equality
    /// follows its specification, this is exactly non-membership.
    pub fn is_unique(&self, value: T) -> (r: bool)
        ensures
            T::obeys_eq_spec() ==> (r <==> forall|i: int|
                0 <= i < self.items().len() ==> !(#[trigger] self.items()[i]).eq_spec(&value)),
    {
        let mut i: usize = 0;
        while i < self.data.len()
            invariant
                i <= self.data@.len(),
                T::obeys_eq_spec() ==> forall|k: int|
                    0 <= k < i ==> !(#[trigger] self.data@[k]).eq_spec(&value),
            decreases self.data@.len() - i,
        {
            if self.data[i] == value {
                proof {
                    if T::obeys_eq_spec() {
                        assert(self.items()[i as int].eq_spec(&value));
                    }
                }
                return false;
            }
            i = i + 1;
        }
        proof {
            if T::obeys_eq_spec() {
                assert(forall|k: int|
                    0 <= k < self.items().len() ==> !(#[trigger] self.items()[k]).eq_spec(&value));
            }
        }
        true
    }
}

/// One discovered candidate: an address and the protocols its provider
/// claims for it.
#[derive(Clone, Debug)]
pub struct Candidate {
    pub host: String,
    pub port: u16,
    pub protocols: Vec<Protocol>,
}

/// The address a candidate is keyed by.
pub open spec fn candidate_key(c: Candidate) -> (Seq<char>, u16) {
    (c.host@, c.port)
}

/// The shared candidate queue with its deduplication set.  `seen` holds
/// every address ever admitted; the ghost `handed` set records every address
/// already handed to a checker.  No address is queued twice, and no address
/// is ever handed out twice.
pub struct CandidateQueue {
    items: Vec<Candidate>,
    seen: Vec<(String, u16)>,
    handed: Ghost<Set<(Seq<char>, u16)>>,
}

impl CandidateQueue {
    /// The queued candidates, oldest first.
    pub closed spec fn queued(&self) -> Seq<Candidate> {
        self.items@
    }

    /// The admitted addresses.
    pub closed spec fn seen_keys(&self) -> Set<(Seq<char>, u16)> {
        Set::new(
            |k: (Seq<char>, u16)|
                exists|i: int|
                    0 <= i < self.seen@.len() && (#[trigger] self.seen@[i]).0@ == k.0
                        && self.seen@[i].1 == k.1,
        )
    }

    /// The addresses already handed to a checker.
    pub closed spec fn handed_keys(&self) -> Set<(Seq<char>, u16)> {
        self.handed@
    }

    /// The queue's invariant: queued addresses are pairwise distinct, every
    /// queued or handed address was admitted, and no queued address was
    /// already handed out.
    pub closed spec fn wf(&self) -> bool {
        &&& forall|i: int, j: int|
            0 <= i < j < self.items@.len() ==> candidate_key(#[trigger] self.items@[i])
                != candidate_key(#[trigger] self.items@[j])
        &&& forall|i: int|
            0 <= i < self.items@.len() ==> self.seen_keys().contains(
                candidate_key(#[trigger] self.items@[i]),
            )
        &&& forall|i: int|
            0 <= i < self.items@.len() ==> !self.handed_keys().contains(
                candidate_key(#[trigger] self.items@[i]),
            )
        &&& self.handed_keys().subset_of(self.seen_keys())
    }

    /// An empty queue: nothing admitted, nothing handed out.
    pub fn new() -> (r: CandidateQueue)
        ensures
            r.wf(),
            r.queued().len() == 0,
            r.seen_keys() == Set::<(Seq<char>, u16)>::empty(),
            r.handed_keys() == Set::<(Seq<char>, u16)>::empty(),
    {
        let r = CandidateQueue {
            items: Vec::new(),
            seen: Vec::new(),
            handed: Ghost(Set::empty()),
        };
        proof {
            assert(r.seen_keys() =~= Set::<(Seq<char>, u16)>::empty());
        }
        r
    }

    /// Whether an address was already admitted, executable form.
    pub fn contains_key(&self, host: &str, port: u16) -> (r: bool)
        ensures
            r == self.seen_keys().contains((host@, port)),
    {
        let mut i: usize = 0;
        while i < self.seen.len()
            invariant
                i <= self.seen@.len(),
                forall|k: int|
                    0 <= k < i ==> !((#[trigger] self.seen@[k]).0@ == host@ && self.seen@[k].1
                        == port),
            decreases self.seen@.len() - i,
        {
            if str_eq(self.seen[i].0.as_str(), host) && self.seen[i].1 == port {
                return true;
            }
            i = i + 1;
        }
        false
    }

    /// Admits a candidate unless its address was seen before.  Returns
    /// whether the candidate entered the queue; a duplicate leaves the
    /// queue and the sets untouched.
    pub fn push(&mut self, c: Candidate) -> (admitted: bool)
        requires
            old(self).wf(),
        ensures
            final(self).wf(),
            admitted == !old(self).seen_keys().contains(candidate_key(c)),
            admitted ==> final(self).queued() == old(self).queued().push(c),
            admitted ==> final(self).seen_keys() == old(self).seen_keys().insert(candidate_key(c)),
            !admitted ==> final(self).queued() == old(self).queued() && final(self).seen_keys()
                == old(self).seen_keys(),
            final(self).handed_keys() == old(self).handed_keys(),
    {
        let key_host = clone_string(&c.host);
        let port = c.port;
        if self.contains_key(key_host.as_str(), port) {
            return false;
        }
        self.items.push(c);
        self.seen.push((key_host, port));
        proof {
            let k0 = candidate_key(self.items@.last());
            assert(self.seen_keys().contains(k0)) by {
                let last = self.seen@.len() - 1;
                assert(self.seen@[last].0@ == k0.0 && self.seen@[last].1 == k0.1);
            }
            assert forall|k: (Seq<char>, u16)|
                self.seen_keys().contains(k) <==> old(self).seen_keys().insert(k0).contains(k) by {
                if old(self).seen_keys().contains(k) {
                    let i = choose|i: int|
                        0 <= i < old(self).seen@.len() && (#[trigger] old(self).seen@[i]).0@ == k.0
                            && old(self).seen@[i].1 == k.1;
                    assert(self.seen@[i].0@ == k.0 && self.seen@[i].1 == k.1);
                }
                if self.seen_keys().contains(k) {
                    let i = choose|i: int|
                        0 <= i < self.seen@.len() && (#[trigger] self.seen@[i]).0@ == k.0
                            && self.seen@[i].1 == k.1;
                    if i < old(self).seen@.len() {
                        assert(old(self).seen@[i].0@ == k.0 && old(self).seen@[i].1 == k.1);
                    } else {
                        assert(k == k0);
                        assert(old(self).seen_keys().insert(k0).contains(k));
                    }
                }
            }
            assert(self.seen_keys() =~= old(self).seen_keys().insert(k0));
            assert(self.items@.drop_last() =~= old(self).items@);
        }
        true
    }

    /// Takes the oldest candidate, recording that its address has now been
    /// handed to a checker.  The address was never handed out before, and
    /// never will be again: this is the queue's deduplication guarantee.
    pub fn pop(&mut self) -> (r: Option<Candidate>)
        requires
            old(self).wf(),
        ensures
            final(self).wf(),
            match r {
                Some(c) => {
                    &&& old(self).queued().len() > 0
                    &&& c == old(self).queued()[0]
                    &&& !old(self).handed_keys().contains(candidate_key(c))
                    &&& final(self).handed_keys() == old(self).handed_keys().insert(
                        candidate_key(c),
                    )
                    &&& final(self).queued() == old(self).queued().drop_first()
                },
                None => old(self).queued().len() == 0 && final(self).queued() == old(self).queued()
                    && final(self).handed_keys() == old(self).handed_keys(),
            },
            final(self).seen_keys() == old(self).seen_keys(),
    {
        if self.items.is_empty() {
            return None;
        }
        let c = self.items.remove(0);
        proof {
            self.handed@ = self.handed@.insert(candidate_key(c));
            assert(self.queued() =~= old(self).queued().drop_first());
            assert forall|i: int|
                0 <= i < self.items@.len() implies !self.handed_keys().contains(
                candidate_key(#[trigger] self.items@[i]),
            ) by {
                assert(self.items@[i] == old(self).items@[i + 1]);
                assert(candidate_key(old(self).items@[0]) != candidate_key(old(self).items@[i + 1]));
            }
        }
        Some(c)
    }

    /// How many candidates wait in the queue.
    pub fn qsize(&self) -> (r: usize)
        ensures
            r == self.queued().len(),
    {
        self.items.len()
    }

}

/// Clones a string, keeping its characters.
pub fn clone_string(s: &String) -> (r: String)
    ensures
        r@ == s@,
{
    s.clone()
}

} // verus!
