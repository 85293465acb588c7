//! The transfer registry: the process-wide mapping from identifier to
//! pending transfer, with the operations the endpoint handlers perform on
//! it. The caller serialises access (one mutable borrow at a time); every
//! operation does a bounded amount of work and leaves the registry
//! consistent.

use vstd::prelude::*;
use std::collections::VecDeque;
use crate::config::Config;
use crate::forwarder::Forwarder;
use crate::token::{generate_id_pair, is_token};

verus! {

/// One pending rendezvous: the owner's capability, the declared length,
/// the moment the record may be reclaimed, and the uploaders waiting in
/// arrival order.
pub struct Transfer {
    pub secret: String,
    pub length: u64,
    pub expiration: u64,
    pub uploaders: VecDeque<Forwarder>,
}

/// A [`Transfer`] abstracted: the secret as characters, the queue as a
/// sequence.
pub struct TransferView {
    pub secret: Seq<char>,
    pub length: u64,
    pub expiration: u64,
    pub uploaders: Seq<Forwarder>,
}

impl View for Transfer {
    type V = TransferView;

    open spec fn view(&self) -> TransferView {
        TransferView {
            secret: self.secret@,
            length: self.length,
            expiration: self.expiration,
            uploaders: self.uploaders@,
        }
    }
}

struct Slot {
    id: String,
    transfer: Transfer,
}

/// The registry abstracted: the map from identifier to transfer, and the
/// next pipe handle to be handed out.
pub struct RegistryView {
    pub transfers: Map<Seq<char>, TransferView>,
    pub next_handle: u64,
}

/// The registry of all pending transfers, keyed by identifier.
pub struct Registry {
    slots: Vec<Slot>,
    next_handle: u64,
}

spec fn slots_map(s: Seq<Slot>) -> Map<Seq<char>, TransferView>
    decreases s.len(),
{
    if s.len() == 0 {
        Map::empty()
    } else {
        slots_map(s.drop_last()).insert(s.last().id@, s.last().transfer@)
    }
}

spec fn unique_ids(s: Seq<Slot>) -> bool {
    forall|i: int, j: int|
        0 <= i < j < s.len() ==> (#[trigger] s[i]).id@ != (#[trigger] s[j]).id@
}

impl View for Registry {
    type V = RegistryView;

    closed spec fn view(&self) -> RegistryView {
        RegistryView { transfers: slots_map(self.slots@), next_handle: self.next_handle }
    }
}

/// Every queued pipe carries a handle below `next_handle`, and no handle
/// appears twice in one queue.
pub open spec fn handles_inv(v: RegistryView) -> bool {
    &&& forall|k: Seq<char>, j: int|
        v.transfers.dom().contains(k) && 0 <= j < v.transfers[k].uploaders.len()
            ==> (#[trigger] v.transfers[k].uploaders[j]).handle < v.next_handle
    &&& forall|k: Seq<char>, j1: int, j2: int|
        #![trigger v.transfers[k].uploaders[j1], v.transfers[k].uploaders[j2]]
        v.transfers.dom().contains(k) && 0 <= j1 < j2 < v.transfers[k].uploaders.len()
            ==> v.transfers[k].uploaders[j1].handle != v.transfers[k].uploaders[j2].handle
}

/// The handles of a queue's pipes, in queue order.
pub open spec fn handles_of(q: Seq<Forwarder>) -> Seq<u64> {
    Seq::new(q.len(), |j: int| q[j].handle)
}

/// `h` is the handle of a pipe queued on a transfer that a sweep at `now`
/// reclaims.
pub open spec fn spec_swept_handle(
    m: Map<Seq<char>, TransferView>,
    now: u64,
    h: u64,
) -> bool {
    exists|k: Seq<char>, j: int|
        #![auto]
        m.dom().contains(k) && m[k].expiration <= now && 0 <= j < m[k].uploaders.len()
            && m[k].uploaders[j].handle == h
}

fn queue_handles(q: &VecDeque<Forwarder>) -> (r: Vec<u64>)
    ensures
        r@ == handles_of(q@),
{
    let mut r: Vec<u64> = Vec::new();
    let mut i: usize = 0;
    while i < q.len()
        invariant
            i <= q@.len(),
            r@.len() == i,
            forall|j: int| 0 <= j < i ==> r@[j] == (#[trigger] q@[j]).handle,
        decreases q@.len() - i,
    {
        r.push(q[i].handle);
        i = i + 1;
    }
    proof {
        assert(r@ =~= handles_of(q@));
    }
    r
}

proof fn lemma_seq_contains_concat<A>(a: Seq<A>, b: Seq<A>, x: A)
    ensures
        (a + b).contains(x) <==> (a.contains(x) || b.contains(x)),
{
    if a.contains(x) {
        let i = choose|i: int| 0 <= i < a.len() && a[i] == x;
        assert((a + b)[i] == x);
    }
    if b.contains(x) {
        let i = choose|i: int| 0 <= i < b.len() && b[i] == x;
        assert((a + b)[a.len() + i] == x);
    }
    if (a + b).contains(x) {
        let i = choose|i: int| 0 <= i < (a + b).len() && (a + b)[i] == x;
        if i < a.len() {
            assert(a[i] == x);
        } else {
            assert(b[i - a.len()] == x);
        }
    }
}

proof fn lemma_unique_ids_drop_last(s: Seq<Slot>)
    requires
        unique_ids(s),
        s.len() > 0,
    ensures
        unique_ids(s.drop_last()),
{
    assert forall|i: int, j: int| 0 <= i < j < s.drop_last().len() implies (#[trigger] s.drop_last()[i]).id@ != (#[trigger] s.drop_last()[j]).id@ by {
        assert(s.drop_last()[i] == s[i]);
        assert(s.drop_last()[j] == s[j]);
    }
}

proof fn lemma_slots_map_index(s: Seq<Slot>, i: int)
    requires
        unique_ids(s),
        0 <= i < s.len(),
    ensures
        slots_map(s).dom().contains(s[i].id@),
        slots_map(s)[s[i].id@] == s[i].transfer@,
    decreases s.len(),
{
    if i < s.len() - 1 {
        lemma_unique_ids_drop_last(s);
        lemma_slots_map_index(s.drop_last(), i);
        assert(s.drop_last()[i] == s[i]);
    }
}

proof fn lemma_slots_map_absent(s: Seq<Slot>, k: Seq<char>)
    requires
        forall|i: int| 0 <= i < s.len() ==> (#[trigger] s[i]).id@ != k,
    ensures
        !slots_map(s).dom().contains(k),
    decreases s.len(),
{
    if s.len() > 0 {
        assert forall|i: int| 0 <= i < s.drop_last().len() implies (#[trigger] s.drop_last()[i]).id@ != k by {
            assert(s.drop_last()[i] == s[i]);
        }
        lemma_slots_map_absent(s.drop_last(), k);
    }
}

proof fn lemma_slots_map_push(s: Seq<Slot>, x: Slot)
    ensures
        slots_map(s.push(x)) == slots_map(s).insert(x.id@, x.transfer@),
{
    assert(s.push(x).drop_last() =~= s);
    assert(s.push(x).last() == x);
}

proof fn lemma_unique_ids_push(s: Seq<Slot>, x: Slot)
    requires
        unique_ids(s),
        forall|i: int| 0 <= i < s.len() ==> (#[trigger] s[i]).id@ != x.id@,
    ensures
        unique_ids(s.push(x)),
{
    assert forall|i: int, j: int| 0 <= i < j < s.push(x).len() implies (#[trigger] s.push(x)[i]).id@ != (#[trigger] s.push(x)[j]).id@ by {
        if j < s.len() {
            assert(s.push(x)[i] == s[i]);
            assert(s.push(x)[j] == s[j]);
        } else {
            assert(s.push(x)[i] == s[i]);
            assert(s.push(x)[j] == x);
        }
    }
}

proof fn lemma_unique_ids_remove(s: Seq<Slot>, i: int)
    requires
        unique_ids(s),
        0 <= i < s.len(),
    ensures
        unique_ids(s.remove(i)),
{
    s.remove_ensures(i);
    assert forall|x: int, y: int| 0 <= x < y < s.remove(i).len() implies (#[trigger] s.remove(i)[x]).id@ != (#[trigger] s.remove(i)[y]).id@ by {
        let x0: int = if x < i {
            x
        } else {
            x + 1
        };
        let y0: int = if y < i {
            y
        } else {
            y + 1
        };
        assert(s.remove(i)[x] == s[x0]);
        assert(s.remove(i)[y] == s[y0]);
    }
}

proof fn lemma_slots_map_remove(s: Seq<Slot>, i: int)
    requires
        unique_ids(s),
        0 <= i < s.len(),
    ensures
        slots_map(s.remove(i)) == slots_map(s).remove(s[i].id@),
    decreases s.len(),
{
    s.remove_ensures(i);
    if i == s.len() - 1 {
        assert(s.remove(i) =~= s.drop_last());
        assert forall|j: int| 0 <= j < s.drop_last().len() implies (#[trigger] s.drop_last()[j]).id@ != s[i].id@ by {
            assert(s.drop_last()[j] == s[j]);
        }
        lemma_slots_map_absent(s.drop_last(), s[i].id@);
        assert(slots_map(s).remove(s[i].id@) =~= slots_map(s.drop_last()));
    } else {
        lemma_unique_ids_drop_last(s);
        lemma_slots_map_remove(s.drop_last(), i);
        assert(s.remove(i).len() == s.len() - 1);
        assert(s.remove(i).last() == s[s.len() - 1]);
        assert(s.remove(i).drop_last() =~= s.drop_last().remove(i));
        assert(s.drop_last()[i] == s[i]);
        assert(s[i].id@ != s.last().id@);
        assert(slots_map(s.drop_last()).remove(s[i].id@).insert(s.last().id@, s.last().transfer@)
            =~= slots_map(s.drop_last()).insert(s.last().id@, s.last().transfer@).remove(
            s[i].id@,
        ));
    }
}

/// Keeping a subset of the transfers, values unchanged, under a handle
/// bound at least as large, preserves the handle invariant.
proof fn lemma_handles_inv_restrict(v: RegistryView, v2: RegistryView)
    requires
        handles_inv(v),
        v2.next_handle >= v.next_handle,
        forall|k: Seq<char>| #[trigger]
            v2.transfers.dom().contains(k) ==> v.transfers.dom().contains(k)
                && v2.transfers[k] == v.transfers[k],
    ensures
        handles_inv(v2),
{
}

/// Inserting one transfer whose queue itself satisfies the handle bounds
/// preserves the handle invariant.
proof fn lemma_handles_inv_insert(v: RegistryView, v2: RegistryView, k: Seq<char>, t: TransferView)
    requires
        handles_inv(v),
        v2.transfers == v.transfers.insert(k, t),
        v2.next_handle >= v.next_handle,
        forall|j: int|
            0 <= j < t.uploaders.len() ==> (#[trigger] t.uploaders[j]).handle < v2.next_handle,
        forall|j1: int, j2: int|
            #![trigger t.uploaders[j1], t.uploaders[j2]]
            0 <= j1 < j2 < t.uploaders.len() ==> t.uploaders[j1].handle != t.uploaders[j2].handle,
    ensures
        handles_inv(v2),
{
}

fn find_index(slots: &Vec<Slot>, id: &String) -> (r: Option<usize>)
    ensures
        match r {
            Some(i) => i < slots@.len() && slots@[i as int].id@ == id@,
            None => forall|j: int| 0 <= j < slots@.len() ==> (#[trigger] slots@[j]).id@ != id@,
        },
{
    let mut i: usize = 0;
    while i < slots.len()
        invariant
            i <= slots@.len(),
            forall|j: int| 0 <= j < i ==> (#[trigger] slots@[j]).id@ != id@,
        decreases slots@.len() - i,
    {
        if slots[i].id == *id {
            return Some(i);
        }
        i = i + 1;
    }
    None
}

/// The record `request_id` creates: the given capability and length, an
/// empty uploader queue, and an expiration `timeout_secs` from now.
pub open spec fn new_transfer_view(
    secret: Seq<char>,
    length: u64,
    now: u64,
    cfg: &Config,
) -> TransferView {
    TransferView {
        secret,
        length,
        expiration: (now + cfg.timeout_secs) as u64,
        uploaders: Seq::empty(),
    }
}

impl Registry {
    /// An empty registry.
    pub fn new() -> (r: Registry)
        ensures
            r.wf(),
            handles_inv(r@),
            r@.transfers == Map::<Seq<char>, TransferView>::empty(),
            r@.next_handle == 0,
    {
        Registry { slots: Vec::new(), next_handle: 0 }
    }

    /// Identifiers are unique, so the abstract map mirrors the slots
    /// exactly.
    pub closed spec fn wf(&self) -> bool {
        unique_ids(self.slots@)
    }

    /// Whether another pipe handle can still be handed out; `upload` asks
    /// for this. One process cannot exhaust the space, but an unverified
    /// caller can test it rather than promise it.
    pub fn handle_space_left(&self) -> (r: bool)
        ensures
            r == (self@.next_handle < u64::MAX),
    {
        self.next_handle < u64::MAX
    }

    /// Insert a transfer under `id` unless the identifier is already taken.
    pub fn insert_transfer(
        &mut self,
        id: String,
        secret: String,
        length: u64,
        now: u64,
        cfg: &Config,
    ) -> (inserted: bool)
        requires
            old(self).wf(),
            handles_inv(old(self)@),
            now + cfg.timeout_secs <= u64::MAX,
        ensures
            final(self).wf(),
            handles_inv(final(self)@),
            final(self)@.next_handle == old(self)@.next_handle,
            inserted == !old(self)@.transfers.dom().contains(id@),
            inserted ==> final(self)@.transfers == old(self)@.transfers.insert(
                id@,
                new_transfer_view(secret@, length, now, cfg),
            ),
            !inserted ==> final(self)@.transfers == old(self)@.transfers,
    {
        match find_index(&self.slots, &id) {
            Some(i) => {
                proof {
                    lemma_slots_map_index(self.slots@, i as int);
                }
                false
            },
            None => {
                proof {
                    lemma_slots_map_absent(self.slots@, id@);
                }
                let ghost pre = self@;
                let ghost pre_slots = self.slots@;
                let transfer = Transfer {
                    secret,
                    length,
                    expiration: now + cfg.timeout_secs,
                    uploaders: VecDeque::new(),
                };
                let ghost tv = transfer@;
                let ghost idv = id@;
                self.slots.push(Slot { id, transfer });
                proof {
                    lemma_slots_map_push(pre_slots, self.slots@.last());
                    lemma_unique_ids_push(pre_slots, self.slots@.last());
                    lemma_handles_inv_insert(pre, self@, idv, tv);
                }
                true
            },
        }
    }

    /// Remove the transfer under `id` when `secret` matches its capability.
    /// Its queued pipes fall with it: the returned handles name them
    /// exactly, and the caller must release their inbound bodies and
    /// completion senders, which cancels each waiting uploader.
    pub fn retire_id(&mut self, id: &String, secret: &String) -> (r: (RetireOutcome, Vec<u64>))
        requires
            old(self).wf(),
            handles_inv(old(self)@),
        ensures
            final(self).wf(),
            handles_inv(final(self)@),
            final(self)@.next_handle == old(self)@.next_handle,
            match r.0 {
                RetireOutcome::Removed => {
                    &&& old(self)@.transfers.dom().contains(id@)
                    &&& old(self)@.transfers[id@].secret == secret@
                    &&& final(self)@.transfers == old(self)@.transfers.remove(id@)
                    &&& r.1@ == handles_of(old(self)@.transfers[id@].uploaders)
                },
                RetireOutcome::BadSecret => {
                    &&& old(self)@.transfers.dom().contains(id@)
                    &&& old(self)@.transfers[id@].secret != secret@
                    &&& final(self)@.transfers == old(self)@.transfers
                    &&& r.1@ == Seq::<u64>::empty()
                },
                RetireOutcome::UnknownId => {
                    &&& !old(self)@.transfers.dom().contains(id@)
                    &&& final(self)@.transfers == old(self)@.transfers
                    &&& r.1@ == Seq::<u64>::empty()
                },
            },
    {
        match find_index(&self.slots, id) {
            Some(i) => {
                proof {
                    lemma_slots_map_index(self.slots@, i as int);
                }
                if self.slots[i].transfer.secret == *secret {
                    let dropped = queue_handles(&self.slots[i].transfer.uploaders);
                    let ghost pre = self@;
                    let ghost pre_slots = self.slots@;
                    proof {
                        lemma_slots_map_remove(pre_slots, i as int);
                        lemma_unique_ids_remove(pre_slots, i as int);
                    }
                    let _removed = self.slots.remove(i);
                    proof {
                        lemma_handles_inv_restrict(pre, self@);
                    }
                    (RetireOutcome::Removed, dropped)
                } else {
                    (RetireOutcome::BadSecret, Vec::new())
                }
            },
            None => {
                proof {
                    lemma_slots_map_absent(self.slots@, id@);
                }
                (RetireOutcome::UnknownId, Vec::new())
            },
        }
    }
}

/// The transfer as it stands after queueing one fresh uploader pipe under
/// handle `h`.
pub open spec fn queued_view(t: TransferView, h: u64) -> TransferView {
    TransferView { uploaders: t.uploaders.push(Forwarder::fresh(h, t.length)), ..t }
}

/// The transfer as it stands after its front uploader pipe was taken.
pub open spec fn popped_view(t: TransferView) -> TransferView {
    TransferView { uploaders: t.uploaders.skip(1), ..t }
}

impl Registry {
    /// Queue an uploader's pipe on the transfer under `id`, handing back the
    /// handle under which the caller keeps the pipe's inbound body and
    /// completion sender. The checks happen in the endpoint's order: a
    /// declared content length must be present and within bounds, the
    /// identifier known, the capability right, and the declared length
    /// exactly the transfer's.
    pub fn upload(
        &mut self,
        id: &String,
        secret: &String,
        content_length: Option<u64>,
        cfg: &Config,
    ) -> (r: UploadOutcome)
        requires
            old(self).wf(),
            handles_inv(old(self)@),
            old(self)@.next_handle < u64::MAX,
        ensures
            final(self).wf(),
            handles_inv(final(self)@),
            match r {
                UploadOutcome::Queued(h) => {
                    &&& content_length == Some(old(self)@.transfers[id@].length)
                    &&& old(self)@.transfers.dom().contains(id@)
                    &&& old(self)@.transfers[id@].secret == secret@
                    &&& old(self)@.transfers[id@].length <= cfg.max_content_length
                    &&& h == old(self)@.next_handle
                    &&& final(self)@.next_handle == h + 1
                    &&& final(self)@.transfers == old(self)@.transfers.insert(
                        id@,
                        queued_view(old(self)@.transfers[id@], h),
                    )
                },
                UploadOutcome::MissingLength => {
                    &&& content_length is None
                    &&& final(self)@ == old(self)@
                },
                UploadOutcome::TooLarge => {
                    &&& content_length matches Some(l) && l > cfg.max_content_length
                    &&& final(self)@ == old(self)@
                },
                UploadOutcome::UnknownId => {
                    &&& content_length matches Some(l) && l <= cfg.max_content_length
                    &&& !old(self)@.transfers.dom().contains(id@)
                    &&& final(self)@ == old(self)@
                },
                UploadOutcome::BadSecret => {
                    &&& content_length matches Some(l) && l <= cfg.max_content_length
                    &&& old(self)@.transfers.dom().contains(id@)
                    &&& old(self)@.transfers[id@].secret != secret@
                    &&& final(self)@ == old(self)@
                },
                UploadOutcome::WrongLength => {
                    &&& content_length matches Some(l) && l <= cfg.max_content_length && l != old(
                        self,
                    )@.transfers[id@].length
                    &&& old(self)@.transfers.dom().contains(id@)
                    &&& old(self)@.transfers[id@].secret == secret@
                    &&& final(self)@ == old(self)@
                },
            },
    {
        let length = match content_length {
            Some(l) => l,
            None => {
                return UploadOutcome::MissingLength;
            },
        };
        if length > cfg.max_content_length {
            return UploadOutcome::TooLarge;
        }
        match find_index(&self.slots, id) {
            None => {
                proof {
                    lemma_slots_map_absent(self.slots@, id@);
                }
                UploadOutcome::UnknownId
            },
            Some(i) => {
                proof {
                    lemma_slots_map_index(self.slots@, i as int);
                }
                if !(self.slots[i].transfer.secret == *secret) {
                    UploadOutcome::BadSecret
                } else if self.slots[i].transfer.length != length {
                    UploadOutcome::WrongLength
                } else {
                    let ghost pre = self@;
                    let ghost pre_slots = self.slots@;
                    let h = self.next_handle;
                    proof {
                        lemma_slots_map_remove(pre_slots, i as int);
                        lemma_unique_ids_remove(pre_slots, i as int);
                        pre_slots.remove_ensures(i as int);
                    }
                    let mut slot = self.slots.remove(i);
                    slot.transfer.uploaders.push_back(
                        Forwarder { handle: h, length: slot.transfer.length, bytes_sent: 0, fused: false },
                    );
                    self.slots.push(slot);
                    self.next_handle = h + 1;
                    proof {
                        let s1 = pre_slots.remove(i as int);
                        let x = self.slots@.last();
                        assert(self.slots@.drop_last() =~= s1);
                        lemma_slots_map_push(s1, x);
                        assert forall|j: int| 0 <= j < s1.len() implies (#[trigger] s1[j]).id@
                            != id@ by {
                            if j < i {
                                assert(s1[j] == pre_slots[j]);
                            } else {
                                assert(s1[j] == pre_slots[j + 1]);
                            }
                        }
                        lemma_unique_ids_push(s1, x);
                        let t2 = queued_view(pre.transfers[id@], h);
                        assert(x.transfer@ =~~= t2);
                        assert(self@.transfers =~= pre.transfers.insert(id@, t2));
                        assert forall|j: int| 0 <= j < t2.uploaders.len() implies (
                        #[trigger] t2.uploaders[j]).handle < self@.next_handle by {
                            if j < pre.transfers[id@].uploaders.len() {
                                assert(pre.transfers[id@].uploaders[j].handle < pre.next_handle);
                            }
                        }
                        assert forall|j1: int, j2: int|
                            #![trigger t2.uploaders[j1], t2.uploaders[j2]]
                            0 <= j1 < j2 < t2.uploaders.len() implies t2.uploaders[j1].handle
                            != t2.uploaders[j2].handle by {
                            if j2 < pre.transfers[id@].uploaders.len() {
                                assert(pre.transfers[id@].uploaders[j1].handle != pre.transfers[id@].uploaders[j2].handle);
                            } else {
                                assert(pre.transfers[id@].uploaders[j1].handle < pre.next_handle);
                            }
                        }
                        lemma_handles_inv_insert(pre, self@, id@, t2);
                    }
                    UploadOutcome::Queued(h)
                }
            },
        }
    }

    /// Take the front-most queued uploader pipe of the transfer under `id`.
    /// The pipe leaves the queue whether or not its uploader is still
    /// connected; the caller decides what to do with it.
    pub fn pop_uploader(&mut self, id: &String) -> (r: PopOutcome)
        requires
            old(self).wf(),
            handles_inv(old(self)@),
        ensures
            final(self).wf(),
            handles_inv(final(self)@),
            final(self)@.next_handle == old(self)@.next_handle,
            match r {
                PopOutcome::UnknownId => {
                    &&& !old(self)@.transfers.dom().contains(id@)
                    &&& final(self)@ == old(self)@
                },
                PopOutcome::NoUploader => {
                    &&& old(self)@.transfers.dom().contains(id@)
                    &&& old(self)@.transfers[id@].uploaders.len() == 0
                    &&& final(self)@ == old(self)@
                },
                PopOutcome::Popped(f) => {
                    &&& old(self)@.transfers.dom().contains(id@)
                    &&& old(self)@.transfers[id@].uploaders.len() > 0
                    &&& f == old(self)@.transfers[id@].uploaders[0]
                    &&& final(self)@.transfers == old(self)@.transfers.insert(
                        id@,
                        popped_view(old(self)@.transfers[id@]),
                    )
                    &&& forall|j: int|
                        0 <= j < final(self)@.transfers[id@].uploaders.len() ==> (
                        #[trigger] final(self)@.transfers[id@].uploaders[j]).handle != f.handle
                },
            },
    {
        match find_index(&self.slots, id) {
            None => {
                proof {
                    lemma_slots_map_absent(self.slots@, id@);
                }
                PopOutcome::UnknownId
            },
            Some(i) => {
                proof {
                    lemma_slots_map_index(self.slots@, i as int);
                }
                if self.slots[i].transfer.uploaders.len() == 0 {
                    PopOutcome::NoUploader
                } else {
                    let ghost pre = self@;
                    let ghost pre_slots = self.slots@;
                    proof {
                        lemma_slots_map_remove(pre_slots, i as int);
                        lemma_unique_ids_remove(pre_slots, i as int);
                        pre_slots.remove_ensures(i as int);
                    }
                    let mut slot = self.slots.remove(i);
                    let f = match slot.transfer.uploaders.pop_front() {
                        Some(f) => f,
                        None => {
                            return unreached();
                        },
                    };
                    self.slots.push(slot);
                    proof {
                        let s1 = pre_slots.remove(i as int);
                        let x = self.slots@.last();
                        assert(self.slots@.drop_last() =~= s1);
                        lemma_slots_map_push(s1, x);
                        assert forall|j: int| 0 <= j < s1.len() implies (#[trigger] s1[j]).id@
                            != id@ by {
                            if j < i {
                                assert(s1[j] == pre_slots[j]);
                            } else {
                                assert(s1[j] == pre_slots[j + 1]);
                            }
                        }
                        lemma_unique_ids_push(s1, x);
                        let t2 = popped_view(pre.transfers[id@]);
                        assert(x.transfer@ =~~= t2);
                        assert(self@.transfers =~= pre.transfers.insert(id@, t2));
                        lemma_handles_inv_restrict_queue(pre, self@, id@);
                        assert forall|j: int| 0 <= j < t2.uploaders.len() implies (
                        #[trigger] t2.uploaders[j]).handle != pre.transfers[id@].uploaders[0].handle by {
                            assert(t2.uploaders[j] == pre.transfers[id@].uploaders[j + 1]);
                            assert(pre.transfers[id@].uploaders[0].handle != pre.transfers[id@].uploaders[j + 1].handle);
                        }
                    }
                    PopOutcome::Popped(f)
                }
            },
        }
    }

    /// Push the transfer's expiration `timeout_secs` past `now`; done when a
    /// live uploader pipe has just been handed to a downloader.
    pub fn refresh_expiration(&mut self, id: &String, now: u64, cfg: &Config) -> (found: bool)
        requires
            old(self).wf(),
            handles_inv(old(self)@),
            now + cfg.timeout_secs <= u64::MAX,
        ensures
            final(self).wf(),
            handles_inv(final(self)@),
            final(self)@.next_handle == old(self)@.next_handle,
            found == old(self)@.transfers.dom().contains(id@),
            found ==> final(self)@.transfers == old(self)@.transfers.insert(
                id@,
                TransferView {
                    expiration: (now + cfg.timeout_secs) as u64,
                    ..old(self)@.transfers[id@]
                },
            ),
            !found ==> final(self)@ == old(self)@,
    {
        match find_index(&self.slots, id) {
            None => {
                proof {
                    lemma_slots_map_absent(self.slots@, id@);
                }
                false
            },
            Some(i) => {
                proof {
                    lemma_slots_map_index(self.slots@, i as int);
                }
                let ghost pre = self@;
                let ghost pre_slots = self.slots@;
                proof {
                    lemma_slots_map_remove(pre_slots, i as int);
                    lemma_unique_ids_remove(pre_slots, i as int);
                    pre_slots.remove_ensures(i as int);
                }
                let mut slot = self.slots.remove(i);
                slot.transfer.expiration = now + cfg.timeout_secs;
                self.slots.push(slot);
                proof {
                    let s1 = pre_slots.remove(i as int);
                    let x = self.slots@.last();
                    assert(self.slots@.drop_last() =~= s1);
                    lemma_slots_map_push(s1, x);
                    assert forall|j: int| 0 <= j < s1.len() implies (#[trigger] s1[j]).id@
                        != id@ by {
                        if j < i {
                            assert(s1[j] == pre_slots[j]);
                        } else {
                            assert(s1[j] == pre_slots[j + 1]);
                        }
                    }
                    lemma_unique_ids_push(s1, x);
                    let t2 = TransferView {
                        expiration: (now + cfg.timeout_secs) as u64,
                        ..pre.transfers[id@]
                    };
                    assert(x.transfer@ =~~= t2);
                    assert(self@.transfers =~= pre.transfers.insert(id@, t2));
                    lemma_handles_inv_restrict_queue(pre, self@, id@);
                }
                true
            },
        }
    }
}

spec fn filter_slots(s: Seq<Slot>, now: u64) -> Seq<Slot>
    decreases s.len(),
{
    if s.len() == 0 {
        Seq::empty()
    } else if s.last().transfer.expiration > now {
        filter_slots(s.drop_last(), now).push(s.last())
    } else {
        filter_slots(s.drop_last(), now)
    }
}

proof fn lemma_filter_slots(s: Seq<Slot>, now: u64)
    requires
        unique_ids(s),
    ensures
        unique_ids(filter_slots(s, now)),
        forall|k: Seq<char>|
            slots_map(filter_slots(s, now)).dom().contains(k) <==> (#[trigger] slots_map(
                s,
            ).dom().contains(k) && slots_map(s)[k].expiration > now),
        forall|k: Seq<char>| #[trigger]
            slots_map(filter_slots(s, now)).dom().contains(k) ==> slots_map(filter_slots(s, now))[k]
                == slots_map(s)[k],
    decreases s.len(),
{
    let f = filter_slots(s, now);
    if s.len() > 0 {
        lemma_unique_ids_drop_last(s);
        lemma_filter_slots(s.drop_last(), now);
        let fd = filter_slots(s.drop_last(), now);
        let last = s.last();
        assert forall|j: int| 0 <= j < s.drop_last().len() implies (#[trigger] s.drop_last()[j]).id@
            != last.id@ by {
            assert(s.drop_last()[j] == s[j]);
        }
        lemma_slots_map_absent(s.drop_last(), last.id@);
        assert(!slots_map(fd).dom().contains(last.id@));
        if last.transfer.expiration > now {
            lemma_slots_map_push(fd, last);
            assert forall|j: int| 0 <= j < fd.len() implies (#[trigger] fd[j]).id@ != last.id@ by {
                lemma_slots_map_index(fd, j);
            }
            lemma_unique_ids_push(fd, last);
        }
    }
}

spec fn dropped_handles(s: Seq<Slot>, now: u64) -> Seq<u64>
    decreases s.len(),
{
    if s.len() == 0 {
        Seq::empty()
    } else if s.last().transfer.expiration > now {
        dropped_handles(s.drop_last(), now)
    } else {
        dropped_handles(s.drop_last(), now) + handles_of(s.last().transfer.uploaders@)
    }
}

proof fn lemma_dropped_handles(s: Seq<Slot>, now: u64)
    requires
        unique_ids(s),
    ensures
        forall|h: u64| #[trigger]
            dropped_handles(s, now).contains(h) <==> spec_swept_handle(slots_map(s), now, h),
    decreases s.len(),
{
    if s.len() == 0 {
        assert forall|h: u64| #[trigger]
            dropped_handles(s, now).contains(h) <==> spec_swept_handle(
            slots_map(s),
            now,
            h,
        ) by {
            assert(!dropped_handles(s, now).contains(h));
            assert(!spec_swept_handle(slots_map(s), now, h));
        }
    } else {
        lemma_unique_ids_drop_last(s);
        lemma_dropped_handles(s.drop_last(), now);
        let last = s.last();
        let m = slots_map(s);
        let md = slots_map(s.drop_last());
        assert forall|j: int| 0 <= j < s.drop_last().len() implies (#[trigger] s.drop_last()[j]).id@
            != last.id@ by {
            assert(s.drop_last()[j] == s[j]);
        }
        lemma_slots_map_absent(s.drop_last(), last.id@);
        assert forall|h: u64| #[trigger]
            dropped_handles(s, now).contains(h) <==> spec_swept_handle(m, now, h) by {
            if last.transfer.expiration <= now {
                lemma_seq_contains_concat(
                    dropped_handles(s.drop_last(), now),
                    handles_of(last.transfer.uploaders@),
                    h,
                );
            }
            if dropped_handles(s, now).contains(h) {
                if last.transfer.expiration <= now && handles_of(
                    last.transfer.uploaders@,
                ).contains(h) {
                    let j = choose|j: int|
                        0 <= j < handles_of(last.transfer.uploaders@).len() && handles_of(
                            last.transfer.uploaders@,
                        )[j] == h;
                    assert(m.dom().contains(last.id@) && m[last.id@].expiration <= now && 0 <= j
                        < m[last.id@].uploaders.len() && m[last.id@].uploaders[j].handle == h);
                } else {
                    assert(dropped_handles(s.drop_last(), now).contains(h));
                    let (k, j) = choose|k: Seq<char>, j: int|
                        #![auto]
                        md.dom().contains(k) && md[k].expiration <= now && 0 <= j
                            < md[k].uploaders.len() && md[k].uploaders[j].handle == h;
                    assert(k != last.id@);
                    assert(m.dom().contains(k) && m[k].expiration <= now && 0 <= j
                        < m[k].uploaders.len() && m[k].uploaders[j].handle == h);
                }
            }
            if spec_swept_handle(m, now, h) {
                let (k, j) = choose|k: Seq<char>, j: int|
                    #![auto]
                    m.dom().contains(k) && m[k].expiration <= now && 0 <= j
                        < m[k].uploaders.len() && m[k].uploaders[j].handle == h;
                if k == last.id@ {
                    assert(m[k] == last.transfer@);
                    assert(handles_of(last.transfer.uploaders@)[j] == h);
                    assert(handles_of(last.transfer.uploaders@).contains(h));
                } else {
                    assert(md.dom().contains(k) && md[k].expiration <= now && 0 <= j
                        < md[k].uploaders.len() && md[k].uploaders[j].handle == h);
                    assert(dropped_handles(s.drop_last(), now).contains(h));
                }
            }
        }
    }
}

impl Registry {
    /// Remove every transfer whose expiration has passed; the sweeper calls
    /// this once per tick. Everything still alive is kept untouched. The
    /// returned handles name exactly the pipes that were queued on the
    /// reclaimed transfers: the caller must release their inbound bodies and
    /// completion senders, which cancels each waiting uploader.
    pub fn sweep(&mut self, now: u64) -> (dropped: Vec<u64>)
        requires
            old(self).wf(),
            handles_inv(old(self)@),
        ensures
            final(self).wf(),
            handles_inv(final(self)@),
            final(self)@.next_handle == old(self)@.next_handle,
            forall|k: Seq<char>|
                final(self)@.transfers.dom().contains(k) <==> (#[trigger] old(
                    self,
                )@.transfers.dom().contains(k) && old(self)@.transfers[k].expiration > now),
            forall|k: Seq<char>| #[trigger]
                final(self)@.transfers.dom().contains(k) ==> final(self)@.transfers[k] == old(
                    self,
                )@.transfers[k],
            forall|h: u64| #[trigger]
                dropped@.contains(h) <==> spec_swept_handle(old(self)@.transfers, now, h),
    {
        let ghost g = self.slots@;
        let mut kept: Vec<Slot> = Vec::new();
        let mut dropped: Vec<u64> = Vec::new();
        while self.slots.len() > 0
            invariant
                self.slots@.len() <= g.len(),
                self.slots@ == g.skip(g.len() - self.slots@.len()),
                kept@ == filter_slots(g.take(g.len() - self.slots@.len()), now),
                dropped@ == dropped_handles(g.take(g.len() - self.slots@.len()), now),
                self.next_handle == old(self).next_handle,
            decreases self.slots@.len(),
        {
            let ghost p: int = g.len() - self.slots@.len();
            let slot = self.slots.remove(0);
            proof {
                assert(g.skip(p)[0] == g[p]);
                assert(g.skip(p).remove(0) =~= g.skip(p + 1));
                assert(g.take(p + 1).drop_last() =~= g.take(p));
                assert(g.take(p + 1).last() == g[p]);
            }
            if slot.transfer.expiration > now {
                kept.push(slot);
            } else {
                let mut handles = queue_handles(&slot.transfer.uploaders);
                dropped.append(&mut handles);
            }
        }
        proof {
            assert(g.take(g.len() as int) =~= g);
        }
        let ghost pre_next = self.next_handle;
        self.slots = kept;
        proof {
            lemma_filter_slots(g, now);
            lemma_dropped_handles(g, now);
            lemma_handles_inv_restrict(
                RegistryView { transfers: slots_map(g), next_handle: pre_next },
                self@,
            );
        }
        dropped
    }

    /// Create a fresh transfer: draw an (identifier, secret) pair, retrying
    /// on the rare identifier collision, and insert the record with an empty
    /// uploader queue.
    ///
    /// Deliberate deviation from regenerating endlessly: the redraw loop is
    /// bounded so that every call terminates, and `None` marks the give-up.
    /// A draw can only ever collide with a registered identifier — the
    /// `None` case owes a non-empty prior registry — so on an empty registry
    /// the call always succeeds, and at the default token length the
    /// give-up never happens in practice.
    pub fn request_id(&mut self, length: u64, now: u64, cfg: &Config) -> (r: Option<
        (String, String),
    >)
        requires
            old(self).wf(),
            handles_inv(old(self)@),
            now + cfg.timeout_secs <= u64::MAX,
        ensures
            final(self).wf(),
            handles_inv(final(self)@),
            final(self)@.next_handle == old(self)@.next_handle,
            match r {
                Some(p) => {
                    &&& is_token(p.0@, cfg.token_length as int)
                    &&& is_token(p.1@, cfg.token_length as int)
                    &&& !old(self)@.transfers.dom().contains(p.0@)
                    &&& final(self)@.transfers == old(self)@.transfers.insert(
                        p.0@,
                        new_transfer_view(p.1@, length, now, cfg),
                    )
                },
                None => {
                    &&& final(self)@.transfers == old(self)@.transfers
                    &&& old(self)@.transfers.dom() != Set::<Seq<char>>::empty()
                },
            },
    {
        let ghost pre = *old(self);
        let mut attempts: usize = 0;
        while attempts < 64
            invariant
                self.wf(),
                handles_inv(self@),
                self@.transfers == pre@.transfers,
                self@.next_handle == pre@.next_handle,
                pre == *old(self),
                now + cfg.timeout_secs <= u64::MAX,
                attempts > 0 ==> pre@.transfers.dom() != Set::<Seq<char>>::empty(),
            decreases 64 - attempts,
        {
            let (id, secret) = generate_id_pair(cfg);
            let inserted = self.insert_transfer(id.clone(), secret.clone(), length, now, cfg);
            if inserted {
                return Some((id, secret));
            }
            proof {
                assert(pre@.transfers.dom().contains(id@));
                assert(!Set::<Seq<char>>::empty().contains(id@));
            }
            attempts = attempts + 1;
        }
        None
    }
}

/// Replacing one transfer with one whose queue is a suffix (or the same),
/// keeping everything else, preserves the handle invariant.
proof fn lemma_handles_inv_restrict_queue(v: RegistryView, v2: RegistryView, k: Seq<char>)
    requires
        handles_inv(v),
        v.transfers.dom().contains(k),
        v2.next_handle == v.next_handle,
        v2.transfers.dom() == v.transfers.dom().insert(k),
        forall|k2: Seq<char>| #[trigger]
            v2.transfers.dom().contains(k2) && k2 != k ==> v2.transfers[k2] == v.transfers[k2],
        v2.transfers[k].uploaders == v.transfers[k].uploaders || (v.transfers[k].uploaders.len()
            > 0 && v2.transfers[k].uploaders == v.transfers[k].uploaders.skip(1)),
    ensures
        handles_inv(v2),
{
    let u = v.transfers[k].uploaders;
    let u2 = v2.transfers[k].uploaders;
    if u2 != u {
        assert(u2 == u.skip(1));
        assert forall|j: int| 0 <= j < u2.len() implies u2[j] == u[j + 1] by {
            assert(u.skip(1)[j] == u[j + 1]);
        }
    }
    assert forall|k2: Seq<char>, j: int|
        v2.transfers.dom().contains(k2) && 0 <= j < v2.transfers[k2].uploaders.len() implies (
    #[trigger] v2.transfers[k2].uploaders[j]).handle < v2.next_handle by {
        if k2 == k && u2 != u {
            assert(u2[j] == u[j + 1]);
            assert(u[j + 1].handle < v.next_handle);
        } else {
            assert(v.transfers[k2].uploaders[j].handle < v.next_handle);
        }
    }
    assert forall|k2: Seq<char>, j1: int, j2: int|
        #![trigger v2.transfers[k2].uploaders[j1], v2.transfers[k2].uploaders[j2]]
        v2.transfers.dom().contains(k2) && 0 <= j1 < j2 < v2.transfers[k2].uploaders.len() implies
        v2.transfers[k2].uploaders[j1].handle != v2.transfers[k2].uploaders[j2].handle by {
        if k2 == k && u2 != u {
            assert(u2[j1] == u[j1 + 1]);
            assert(u2[j2] == u[j2 + 1]);
            assert(u[j1 + 1].handle != u[j2 + 1].handle);
        } else {
            assert(v.transfers[k2].uploaders[j1].handle != v.transfers[k2].uploaders[j2].handle);
        }
    }
}

/// What queueing an upload produced.
#[derive(Clone, Copy, PartialEq, Eq, Structural, Debug)]
pub enum UploadOutcome {
    /// The pipe is queued; the caller keeps its resources under this handle.
    Queued(u64),
    /// The request declared no content length.
    MissingLength,
    /// The declared content length exceeds the configured bound.
    TooLarge,
    /// No transfer under that identifier.
    UnknownId,
    /// The capability did not match; nothing changed.
    BadSecret,
    /// The declared content length is not the transfer's length.
    WrongLength,
}

/// What taking a queued uploader produced.
pub enum PopOutcome {
    /// No transfer under that identifier.
    UnknownId,
    /// The transfer exists but no uploader is queued.
    NoUploader,
    /// The front-most pipe, removed from the queue.
    Popped(Forwarder),
}

proof fn lemma_slots_map_dom(s: Seq<Slot>, k: Seq<char>)
    requires
        slots_map(s).dom().contains(k),
    ensures
        exists|i: int| 0 <= i < s.len() && (#[trigger] s[i]).id@ == k,
    decreases s.len(),
{
    if s.len() > 0 {
        if s.last().id@ == k {
            assert(s[s.len() - 1].id@ == k);
        } else {
            lemma_slots_map_dom(s.drop_last(), k);
            let i = choose|i: int| 0 <= i < s.drop_last().len() && (#[trigger] s.drop_last()[i]).id@
                == k;
            assert(s[i].id@ == k);
        }
    }
}

/// One row of the registry's debug snapshot: an identifier with its
/// transfer's declared length, expiration deadline and number of queued
/// uploader pipes. The capability stays inside.
pub struct SnapshotRow {
    pub id: String,
    pub length: u64,
    pub expiration: u64,
    pub queued: usize,
}

impl Registry {
    /// The raw rows of a human-readable snapshot, one per transfer: each
    /// row reports a registered transfer exactly, and every transfer has
    /// exactly one row. A debugging transport renders these.
    pub fn snapshot(&self) -> (rows: Vec<SnapshotRow>)
        requires
            self.wf(),
        ensures
            forall|i: int|
                0 <= i < rows@.len() ==> {
                    let row = #[trigger] rows@[i];
                    &&& self@.transfers.dom().contains(row.id@)
                    &&& row.length == self@.transfers[row.id@].length
                    &&& row.expiration == self@.transfers[row.id@].expiration
                    &&& row.queued == self@.transfers[row.id@].uploaders.len()
                },
            forall|k: Seq<char>| #[trigger]
                self@.transfers.dom().contains(k) ==> exists|i: int|
                    0 <= i < rows@.len() && (#[trigger] rows@[i]).id@ == k,
            forall|i: int, j: int|
                0 <= i < j < rows@.len() ==> (#[trigger] rows@[i]).id@ != (#[trigger] rows@[j]).id@,
    {
        let mut rows: Vec<SnapshotRow> = Vec::new();
        let mut i: usize = 0;
        while i < self.slots.len()
            invariant
                self.wf(),
                i <= self.slots@.len(),
                rows@.len() == i,
                forall|j: int|
                    0 <= j < i ==> (#[trigger] rows@[j]).id@ == self.slots@[j].id@
                        && rows@[j].length == self.slots@[j].transfer.length && rows@[j].expiration
                        == self.slots@[j].transfer.expiration && rows@[j].queued
                        == self.slots@[j].transfer.uploaders@.len(),
            decreases self.slots@.len() - i,
        {
            let slot = &self.slots[i];
            rows.push(
                SnapshotRow {
                    id: slot.id.clone(),
                    length: slot.transfer.length,
                    expiration: slot.transfer.expiration,
                    queued: slot.transfer.uploaders.len(),
                },
            );
            i = i + 1;
        }
        proof {
            assert forall|j: int| 0 <= j < rows@.len() implies {
                let row = #[trigger] rows@[j];
                &&& self@.transfers.dom().contains(row.id@)
                &&& row.length == self@.transfers[row.id@].length
                &&& row.expiration == self@.transfers[row.id@].expiration
                &&& row.queued == self@.transfers[row.id@].uploaders.len()
            } by {
                lemma_slots_map_index(self.slots@, j);
            }
            assert forall|k: Seq<char>| #[trigger]
                self@.transfers.dom().contains(k) implies exists|j: int|
                0 <= j < rows@.len() && (#[trigger] rows@[j]).id@ == k by {
                lemma_slots_map_dom(self.slots@, k);
                let j = choose|j: int|
                    0 <= j < self.slots@.len() && (#[trigger] self.slots@[j]).id@ == k;
                assert(rows@[j].id@ == k);
            }
        }
        rows
    }
}

/// What retiring an identifier produced.
#[derive(Clone, Copy, PartialEq, Eq, Structural, Debug)]
pub enum RetireOutcome {
    /// The capability matched; the transfer is gone.
    Removed,
    /// The capability did not match; nothing changed.
    BadSecret,
    /// No transfer under that identifier.
    UnknownId,
}

} // verus!
