//! The table of requests that wait for their response, keyed by sequence
//! number, each with a single-use completion slot.
use vstd::prelude::*;
use futures::channel::oneshot::{Receiver, Sender};
use dashmap::DashMap;
use crate::buffer::bytes_view;

verus! {

#[verifier::external_type_specification]
#[verifier::external_body]
#[verifier::reject_recursive_types(K)]
#[verifier::reject_recursive_types(V)]
#[verifier::reject_recursive_types(S)]
pub struct ExDashMap<K, V, S>(DashMap<K, V, S>);

#[verifier::external_type_specification]
#[verifier::external_body]
#[verifier::reject_recursive_types(T)]
pub struct ExSlotSender<T>(Sender<T>);

#[verifier::external_type_specification]
#[verifier::external_body]
#[verifier::reject_recursive_types(T)]
pub struct ExSlotReceiver<T>(Receiver<T>);

#[verifier::external_type_specification]
#[verifier::external_body]
pub struct ExSlotCanceled(futures::channel::oneshot::Canceled);

/// The sequence numbers that a slot map holds an entry for.
pub uninterp spec fn slot_keys(m: DashMap<u32, Sender<bytes::Bytes>>) -> Set<u32>;

/// Relies on `DashMap::new`: the map starts empty.
#[verifier::external_body]
fn slots_new() -> (r: DashMap<u32, Sender<bytes::Bytes>>)
    ensures
        slot_keys(r) == Set::<u32>::empty(),
{
    DashMap::new()
}

/// Relies on `DashMap::contains_key`: whether `k` has an entry.
#[verifier::external_body]
fn slots_contains(m: &DashMap<u32, Sender<bytes::Bytes>>, k: u32) -> (r: bool)
    ensures
        r == slot_keys(*m).contains(k),
{
    m.contains_key(&k)
}

/// Relies on `DashMap::insert`: afterwards `k` has an entry, and the entry it
/// had before, if any, comes back.
#[verifier::external_body]
fn slots_insert(m: &mut DashMap<u32, Sender<bytes::Bytes>>, k: u32, v: Sender<bytes::Bytes>) -> (r:
    Option<Sender<bytes::Bytes>>)
    ensures
        slot_keys(*final(m)) == slot_keys(*old(m)).insert(k),
        r is Some <==> slot_keys(*old(m)).contains(k),
{
    m.insert(k, v)
}

/// Relies on `DashMap::remove`: afterwards `k` has no entry, and the entry it
/// had, if any, comes back.
#[verifier::external_body]
fn slots_remove(m: &mut DashMap<u32, Sender<bytes::Bytes>>, k: u32) -> (r: Option<
    Sender<bytes::Bytes>,
>)
    ensures
        slot_keys(*final(m)) == slot_keys(*old(m)).remove(k),
        r is Some <==> slot_keys(*old(m)).contains(k),
{
    m.remove(&k).map(|e| e.1)
}

/// Relies on `DashMap::clear`: afterwards the map is empty.
#[verifier::external_body]
fn slots_clear(m: &mut DashMap<u32, Sender<bytes::Bytes>>)
    ensures
        slot_keys(*final(m)) == Set::<u32>::empty(),
{
    m.clear()
}

/// Relies on `oneshot::channel`: a fresh slot and the handle that awaits it.
#[verifier::external_body]
fn slot_channel() -> (r: (Sender<bytes::Bytes>, Receiver<bytes::Bytes>)) {
    futures::channel::oneshot::channel()
}

/// Relies on `oneshot::Sender::send`: hands `payload` to the waiting handle,
/// if it is still there.
#[verifier::external_body]
fn slot_send(slot: Sender<bytes::Bytes>, payload: bytes::Bytes) {
    let _ = slot.send(payload);
}

/// Requests that wait for a response, by sequence number. Each entry holds a
/// slot that is fulfilled or released exactly once, when the entry leaves.
pub struct PendingRequestTable {
    slots: DashMap<u32, Sender<bytes::Bytes>>,
    handed: Ghost<Seq<(u32, Seq<u8>)>>,
}

impl View for PendingRequestTable {
    type V = Set<u32>;

    closed spec fn view(&self) -> Set<u32> {
        slot_keys(self.slots)
    }
}

impl PendingRequestTable {
    /// The payloads handed to fulfilled slots, with their sequence numbers,
    /// in the order they were handed over.
    pub closed spec fn handed(&self) -> Seq<(u32, Seq<u8>)> {
        self.handed@
    }

    /// An empty table.
    pub fn new() -> (r: Self)
        ensures
            r@ == Set::<u32>::empty(),
            r.handed() == Seq::<(u32, Seq<u8>)>::empty(),
    {
        PendingRequestTable { slots: slots_new(), handed: Ghost(Seq::empty()) }
    }

    /// Whether a request with sequence number `seq` is waiting.
    pub fn contains(&self, seq: u32) -> (r: bool)
        ensures
            r == self@.contains(seq),
    {
        slots_contains(&self.slots, seq)
    }

    /// Opens a slot for `seq` and returns the handle that awaits it; refuses,
    /// changing nothing, while a slot for `seq` is still open.
    pub fn register(&mut self, seq: u32) -> (r: Option<Receiver<bytes::Bytes>>)
        ensures
            r is Some <==> !old(self)@.contains(seq),
            r is Some ==> final(self)@ == old(self)@.insert(seq),
            r is None ==> final(self)@ == old(self)@,
            final(self).handed() == old(self).handed(),
    {
        if slots_contains(&self.slots, seq) {
            return None;
        }
        let (tx, rx) = slot_channel();
        let _ = slots_insert(&mut self.slots, seq, tx);
        Some(rx)
    }

    /// Removes the entry of `seq` and fulfills its slot with `payload`;
    /// returns whether there was one.
    pub fn fulfill(&mut self, seq: u32, payload: bytes::Bytes) -> (r: bool)
        ensures
            r == old(self)@.contains(seq),
            final(self)@ == old(self)@.remove(seq),
            final(self).handed() == if r {
                old(self).handed().push((seq, bytes_view(payload)))
            } else {
                old(self).handed()
            },
    {
        match slots_remove(&mut self.slots, seq) {
            Some(slot) => {
                let ghost sent = bytes_view(payload);
                slot_send(slot, payload);
                self.handed = Ghost(self.handed@.push((seq, sent)));
                true
            },
            None => false,
        }
    }

    /// Removes the entry of `seq` without fulfilling it, so that its waiter
    /// sees the slot released; returns whether there was one.
    pub fn release(&mut self, seq: u32) -> (r: bool)
        ensures
            r == old(self)@.contains(seq),
            final(self)@ == old(self)@.remove(seq),
            final(self).handed() == old(self).handed(),
    {
        slots_remove(&mut self.slots, seq).is_some()
    }

    /// Removes every entry; each waiter sees its slot released.
    pub fn release_all(&mut self)
        ensures
            final(self)@ == Set::<u32>::empty(),
            final(self).handed() == old(self).handed(),
    {
        slots_clear(&mut self.slots)
    }
}

} // verus!
