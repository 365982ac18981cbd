//! A directory of named single-consumer mailboxes: each target name maps to
//! the sending end of one channel.

use std::sync::mpsc::Sender;
use std::sync::{Arc, Mutex};
use vstd::prelude::*;
use vstd::string::*;

verus! {

#[derive(Debug, Clone, Copy, PartialEq, Eq, Structural)]
pub enum BrokerError {
    DuplicateTarget,
    NoSuchTarget,
    SendingError,
}

#[verifier::external_type_specification]
#[verifier::external_body]
#[verifier::reject_recursive_types(T)]
pub struct ExSender<T>(Sender<T>);

/// The views of a list of names.
pub open spec fn names_of(v: Seq<String>) -> Seq<Seq<char>> {
    v.map_values(|s: String| s@)
}

/// The deliveries made after the first `n`.
pub open spec fn deliveries_since(d: Seq<Seq<char>>, n: int) -> Seq<Seq<char>> {
    d.subrange(n, d.len() as int)
}

/// Relies on std's Sender::send, which moves the message into the channel and
/// fails only when the receiving end is gone. Whether it is gone is not known here.
#[verifier::external_body]
fn deliver<T>(tx: &Sender<T>, message: T) -> bool {
    tx.send(message).is_ok()
}

/// Once `target` has been added, whatever the table held before, it is
/// registered: adding it a second time is refused with `DuplicateTarget`.
pub proof fn lemma_duplicate_target<T>(
    before: Map<Seq<char>, Sender<T>>,
    target: Seq<char>,
    sender: Sender<T>,
)
    ensures
        before.insert(target, sender).contains_key(target),
{
}

/// The table is kept as two parallel `Vec`s searched by string equality,
/// with names unique: vstd's specification of `HashMap` proves nothing
/// about `String` keys.
#[verifier::reject_recursive_types(T)]
pub struct MessageBroker<T> {
    names: Vec<String>,
    senders: Vec<Sender<T>>,
    table: Ghost<Map<Seq<char>, Sender<T>>>,
    handed: Ghost<Seq<Seq<char>>>,
}

pub type SharedMessageBroker<T> = Arc<Mutex<MessageBroker<T>>>;

impl<T> MessageBroker<T> {
    /// The registered targets, each with the sending end of its mailbox.
    pub closed spec fn targets(&self) -> Map<Seq<char>, Sender<T>> {
        self.table@
    }

    /// The targets that were handed a message so far, in the order of the
    /// hand-overs that their channels accepted.
    pub closed spec fn deliveries(&self) -> Seq<Seq<char>> {
        self.handed@
    }

    pub closed spec fn wf(&self) -> bool {
        &&& self.names@.len() == self.senders@.len()
        &&& forall|i: int, j: int|
            0 <= i < self.names@.len() && 0 <= j < self.names@.len() && i != j
                ==> #[trigger] self.names@[i]@ != #[trigger] self.names@[j]@
        &&& forall|i: int|
            0 <= i < self.names@.len() ==> {
                &&& self.table@.contains_key(#[trigger] self.names@[i]@)
                &&& self.table@[self.names@[i]@] == self.senders@[i]
            }
        &&& forall|k: Seq<char>|
            #[trigger] self.table@.contains_key(k) ==> exists|i: int|
                0 <= i < self.names@.len() && #[trigger] self.names@[i]@ == k
    }

    pub fn new() -> (r: Self)
        ensures
            r.wf(),
            r.targets() == Map::<Seq<char>, Sender<T>>::empty(),
            r.deliveries() == Seq::<Seq<char>>::empty(),
    {
        MessageBroker {
            names: Vec::new(),
            senders: Vec::new(),
            table: Ghost(Map::empty()),
            handed: Ghost(Seq::empty()),
        }
    }

    /// A new empty broker behind a mutex, to be shared between threads.
    pub fn new_shared() -> SharedMessageBroker<T> {
        Arc::new(Mutex::new(MessageBroker::new()))
    }

    /// The position of `target` in the table, if it is registered.
    fn find(&self, target: &str) -> (r: Option<usize>)
        requires
            self.wf(),
        ensures
            r is None <==> !self.targets().contains_key(target@),
            r matches Some(i) ==> i < self.names@.len() && self.names@[i as int]@ == target@,
    {
        let wanted = String::from_str(target);
        let mut i: usize = 0;
        while i < self.names.len()
            invariant
                self.wf(),
                wanted@ == target@,
                i <= self.names@.len(),
                forall|j: int| 0 <= j < i ==> #[trigger] self.names@[j]@ != target@,
            decreases self.names@.len() - i,
        {
            if self.names[i] == wanted {
                return Some(i);
            }
            i = i + 1;
        }
        proof {
            if self.table@.contains_key(target@) {
                let k = target@;
                assert(exists|j: int| 0 <= j < self.names@.len() && #[trigger] self.names@[j]@ == k);
            }
        }
        None
    }

    /// Registers `sender` as the mailbox of `target`.
    pub fn add_actor(&mut self, target: &str, sender: Sender<T>) -> (r: Result<(), BrokerError>)
        requires
            old(self).wf(),
        ensures
            final(self).wf(),
            final(self).deliveries() == old(self).deliveries(),
            old(self).targets().contains_key(target@) ==> r == Err::<(), BrokerError>(
                BrokerError::DuplicateTarget,
            ) && final(self).targets() == old(self).targets(),
            !old(self).targets().contains_key(target@) ==> r is Ok && final(self).targets()
                == old(self).targets().insert(target@, sender),
    {
        if self.find(target).is_some() {
            return Err(BrokerError::DuplicateTarget);
        }
        let ghost old_names = self.names@;
        self.names.push(String::from_str(target));
        self.senders.push(sender);
        self.table = Ghost(self.table@.insert(target@, sender));
        assert forall|k: Seq<char>| #[trigger] self.table@.contains_key(k) implies exists|i: int|
            0 <= i < self.names@.len() && #[trigger] self.names@[i]@ == k by {
            if k == target@ {
                assert(self.names@[old_names.len() as int]@ == k);
            } else {
                assert(old(self).table@.contains_key(k));
                let i = choose|i: int| 0 <= i < old_names.len() && #[trigger] old_names[i]@ == k;
                assert(self.names@[i]@ == k);
            }
        }
        Ok(())
    }

    /// Takes `target` out of the table.
    pub fn remove_actor(&mut self, target: &str) -> (r: Result<(), BrokerError>)
        requires
            old(self).wf(),
        ensures
            final(self).wf(),
            final(self).deliveries() == old(self).deliveries(),
            !old(self).targets().contains_key(target@) ==> r == Err::<(), BrokerError>(
                BrokerError::NoSuchTarget,
            ) && final(self).targets() == old(self).targets(),
            old(self).targets().contains_key(target@) ==> r is Ok && final(self).targets()
                == old(self).targets().remove(target@),
    {
        let i = match self.find(target) {
            None => return Err(BrokerError::NoSuchTarget),
            Some(i) => i,
        };
        let ghost old_names = self.names@;
        let ghost old_senders = self.senders@;
        self.names.remove(i);
        self.senders.remove(i);
        self.table = Ghost(self.table@.remove(target@));
        assert forall|j: int| 0 <= j < self.names@.len() implies {
            &&& self.table@.contains_key(#[trigger] self.names@[j]@)
            &&& self.table@[self.names@[j]@] == self.senders@[j]
        } by {
            let o = if j < i { j } else { j + 1 };
            assert(self.names@[j] == old_names[o]);
            assert(self.senders@[j] == old_senders[o]);
            assert(old_names[o]@ != old_names[i as int]@);
        }
        assert forall|k: Seq<char>| #[trigger] self.table@.contains_key(k) implies exists|j: int|
            0 <= j < self.names@.len() && #[trigger] self.names@[j]@ == k by {
            let o = choose|o: int| 0 <= o < old_names.len() && #[trigger] old_names[o]@ == k;
            assert(o != i);
            let j = if o < i { o } else { o - 1 };
            assert(self.names@[j] == old_names[o]);
        }
        assert forall|a: int, b: int|
            0 <= a < self.names@.len() && 0 <= b < self.names@.len() && a != b
                implies #[trigger] self.names@[a]@ != #[trigger] self.names@[b]@ by {
            let oa = if a < i { a } else { a + 1 };
            let ob = if b < i { b } else { b + 1 };
            assert(self.names@[a] == old_names[oa]);
            assert(self.names@[b] == old_names[ob]);
        }
        Ok(())
    }

    /// Hands `message` to the mailbox of `target`.
    pub fn send_message(&mut self, target: &str, message: T) -> (r: Result<(), BrokerError>)
        requires
            old(self).wf(),
        ensures
            final(self).wf(),
            final(self).targets() == old(self).targets(),
            !old(self).targets().contains_key(target@) ==> r == Err::<(), BrokerError>(
                BrokerError::NoSuchTarget,
            ),
            old(self).targets().contains_key(target@) ==> r is Ok || r == Err::<(), BrokerError>(
                BrokerError::SendingError,
            ),
            r is Ok ==> final(self).deliveries() == old(self).deliveries().push(target@),
            r is Err ==> final(self).deliveries() == old(self).deliveries(),
    {
        let i = match self.find(target) {
            None => return Err(BrokerError::NoSuchTarget),
            Some(i) => i,
        };
        if deliver(&self.senders[i], message) {
            self.handed = Ghost(self.handed@.push(target@));
            Ok(())
        } else {
            Err(BrokerError::SendingError)
        }
    }

    /// Hands a copy of `message` to every registered mailbox, going on past
    /// mailboxes whose receiver is gone, and returns the names of those.
    /// Every registered target is then either among the new deliveries or
    /// among the returned names, and never both.
    pub fn broadcast_message(&mut self, message: T) -> (failed: Vec<String>)
        where
            T: Clone,
        requires
            old(self).wf(),
        ensures
            final(self).wf(),
            final(self).targets() == old(self).targets(),
            final(self).deliveries().len() >= old(self).deliveries().len(),
            final(self).deliveries().subrange(0, old(self).deliveries().len() as int)
                == old(self).deliveries(),
            forall|k: Seq<char>|
                old(self).targets().contains_key(k) <==> (#[trigger] deliveries_since(
                    final(self).deliveries(),
                    old(self).deliveries().len() as int,
                ).contains(k) || #[trigger] names_of(failed@).contains(k)),
            forall|k: Seq<char>|
                !(#[trigger] deliveries_since(
                    final(self).deliveries(),
                    old(self).deliveries().len() as int,
                ).contains(k) && #[trigger] names_of(failed@).contains(k)),
            deliveries_since(
                final(self).deliveries(),
                old(self).deliveries().len() as int,
            ).no_duplicates(),
    {
        let ghost start = self.handed@.len() as int;
        let mut failed: Vec<String> = Vec::new();
        let mut i: usize = 0;
        assert(self.handed@.subrange(0, start) =~= old(self).handed@);
        assert(deliveries_since(self.handed@, start).len() == 0);
        while i < self.names.len()
            invariant
                self.wf(),
                self.names@ == old(self).names@,
                self.table@ == old(self).table@,
                i <= self.names@.len(),
                start == old(self).handed@.len(),
                self.handed@.len() >= start,
                self.handed@.subrange(0, start) == old(self).handed@,
                forall|k: Seq<char>|
                    #[trigger] deliveries_since(self.handed@, start).contains(k) ==> exists|j: int|
                        0 <= j < i && #[trigger] self.names@[j]@ == k,
                forall|k: Seq<char>|
                    #[trigger] names_of(failed@).contains(k) ==> exists|j: int|
                        0 <= j < i && #[trigger] self.names@[j]@ == k,
                forall|j: int|
                    0 <= j < i ==> deliveries_since(self.handed@, start).contains(
                        #[trigger] self.names@[j]@,
                    ) || names_of(failed@).contains(self.names@[j]@),
                forall|k: Seq<char>|
                    !(#[trigger] deliveries_since(self.handed@, start).contains(k)
                        && #[trigger] names_of(failed@).contains(k)),
                deliveries_since(self.handed@, start).no_duplicates(),
            decreases self.names@.len() - i,
        {
            let ghost name = self.names@[i as int]@;
            let ghost d0 = deliveries_since(self.handed@, start);
            let ghost f0 = names_of(failed@);
            assert(!d0.contains(name)) by {
                if d0.contains(name) {
                    let j = choose|j: int| 0 <= j < i && #[trigger] self.names@[j]@ == name;
                    assert(self.names@[j]@ != self.names@[i as int]@);
                }
            }
            assert(!f0.contains(name)) by {
                if f0.contains(name) {
                    let j = choose|j: int| 0 <= j < i && #[trigger] self.names@[j]@ == name;
                    assert(self.names@[j]@ != self.names@[i as int]@);
                }
            }
            let copy = message.clone();
            let delivered = deliver(&self.senders[i], copy);
            if delivered {
                self.handed = Ghost(self.handed@.push(name));
                assert(deliveries_since(self.handed@, start) =~= d0.push(name));
                assert(d0.push(name).no_duplicates()) by {
                    let d = d0.push(name);
                    assert forall|a: int, b: int| 0 <= a < d.len() && 0 <= b < d.len() && a != b
                        implies d[a] != d[b] by {
                        if a == d0.len() {
                            assert(d0[b] == d[b]);
                        } else if b == d0.len() {
                            assert(d0[a] == d[a]);
                        }
                    }
                }
            } else {
                failed.push(self.names[i].clone());
                assert(names_of(failed@) =~= f0.push(name));
            }
            let ghost d1 = deliveries_since(self.handed@, start);
            let ghost f1 = names_of(failed@);
            assert(d1.contains(name) || f1.contains(name)) by {
                if delivered {
                    assert(d1[d1.len() - 1] == name);
                } else {
                    assert(f1[f1.len() - 1] == name);
                }
            }
            assert(!(d1.contains(name) && f1.contains(name))) by {
                if delivered {
                    assert(f1 == f0);
                } else {
                    assert(d1 == d0);
                }
            }
            assert forall|k: Seq<char>| k != name implies (#[trigger] d1.contains(k) <==> d0.contains(k))
                && (#[trigger] f1.contains(k) <==> f0.contains(k)) by {
                if delivered {
                    assert(f1 == f0);
                    if d1.contains(k) {
                        let x = choose|x: int| 0 <= x < d1.len() && d1[x] == k;
                        assert(d0[x] == k);
                    }
                    if d0.contains(k) {
                        let x = choose|x: int| 0 <= x < d0.len() && d0[x] == k;
                        assert(d1[x] == k);
                    }
                } else {
                    assert(d1 == d0);
                    if f1.contains(k) {
                        let x = choose|x: int| 0 <= x < f1.len() && f1[x] == k;
                        assert(f0[x] == k);
                    }
                    if f0.contains(k) {
                        let x = choose|x: int| 0 <= x < f0.len() && f0[x] == k;
                        assert(f1[x] == k);
                    }
                }
            }
            assert forall|k: Seq<char>| #[trigger] d1.contains(k) implies exists|j: int|
                0 <= j < i + 1 && #[trigger] self.names@[j]@ == k by {
                if k == name {
                    assert(self.names@[i as int]@ == k);
                } else {
                    assert(d0.contains(k));
                    let j = choose|j: int| 0 <= j < i && #[trigger] self.names@[j]@ == k;
                    assert(self.names@[j]@ == k);
                }
            }
            assert forall|k: Seq<char>| #[trigger] f1.contains(k) implies exists|j: int|
                0 <= j < i + 1 && #[trigger] self.names@[j]@ == k by {
                if k == name {
                    assert(self.names@[i as int]@ == k);
                } else {
                    assert(f0.contains(k));
                    let j = choose|j: int| 0 <= j < i && #[trigger] self.names@[j]@ == k;
                    assert(self.names@[j]@ == k);
                }
            }
            assert forall|j: int| 0 <= j < i + 1 implies d1.contains(#[trigger] self.names@[j]@)
                || f1.contains(self.names@[j]@) by {
                if j < i {
                    assert(self.names@[j]@ != name);
                    assert(d0.contains(self.names@[j]@) || f0.contains(self.names@[j]@));
                }
            }
            assert forall|k: Seq<char>| !(#[trigger] d1.contains(k) && #[trigger] f1.contains(k)) by {
                if k != name {
                    assert(!(d0.contains(k) && f0.contains(k)));
                }
            }
            assert(self.handed@.subrange(0, start) =~= old(self).handed@);
            i = i + 1;
        }
        proof {
            let d = deliveries_since(self.handed@, start);
            let f = names_of(failed@);
            assert forall|k: Seq<char>| old(self).targets().contains_key(k) <==> (#[trigger] d.contains(k)
                || #[trigger] f.contains(k)) by {
                if old(self).targets().contains_key(k) {
                    let j = choose|j: int| 0 <= j < self.names@.len() && #[trigger] self.names@[j]@ == k;
                    assert(d.contains(self.names@[j]@) || f.contains(self.names@[j]@));
                }
                if d.contains(k) || f.contains(k) {
                    let j = choose|j: int| 0 <= j < self.names@.len() && #[trigger] self.names@[j]@ == k;
                    assert(self.table@.contains_key(self.names@[j]@));
                }
            }
        }
        failed
    }
}

} // verus!
