//! Laws of the engine that span more than one operation, stated over the
//! abstract views the operations' contracts use. Together with the
//! contracts themselves they pin down the behaviour the relay promises:
//! byte-exact delivery lives with the forwarder
//! ([`crate::forwarder::lemma_one_to_one_delivery`]); the rest stands here.

use vstd::prelude::*;
use crate::config::Config;
use crate::forwarder::Forwarder;
use crate::registry::{new_transfer_view, queued_view, RegistryView, TransferView};

verus! {

/// FIFO matching: uploads append to the back of a transfer's queue and
/// downloads take the front, so after `i` downloads the next download takes
/// the uploader that arrived `i`-th — uploader `i` is matched with
/// downloader `i`, and a later upload never disturbs the pipes already
/// queued.
pub proof fn lemma_fifo_matching(q: Seq<Forwarder>, i: int, t: TransferView, h: u64)
    requires
        0 <= i < q.len(),
    ensures
        q.skip(i).len() > 0,
        q.skip(i)[0] == q[i],
        q.skip(i).skip(1) == q.skip(i + 1),
        forall|j: int| 0 <= j < t.uploaders.len() ==> queued_view(t, h).uploaders[j]
            == t.uploaders[j],
{
    assert(q.skip(i)[0] == q[i]);
    assert(q.skip(i).skip(1) =~= q.skip(i + 1));
}

/// Expiration: a transfer created at `then` carries the deadline
/// `then + timeout_secs`. If nothing touches it, any sweep that runs once
/// `timeout_secs` has elapsed — at the latest the one a scan interval later
/// — finds the deadline passed and leaves the identifier absent. `v1` is
/// the registry holding the untouched transfer; `v2` is any state
/// satisfying the sweep's contract at `now`.
pub proof fn lemma_expiration(
    v1: RegistryView,
    v2: RegistryView,
    id: Seq<char>,
    secret: Seq<char>,
    length: u64,
    then: u64,
    now: u64,
    cfg: &Config,
)
    requires
        then + cfg.timeout_secs <= u64::MAX,
        now >= then + cfg.timeout_secs,
        v1.transfers.dom().contains(id),
        v1.transfers[id] == new_transfer_view(secret, length, then, cfg),
        forall|k: Seq<char>|
            v2.transfers.dom().contains(k) <==> (#[trigger] v1.transfers.dom().contains(k)
                && v1.transfers[k].expiration > now),
    ensures
        new_transfer_view(secret, length, then, cfg).expiration <= now,
        !v2.transfers.dom().contains(id),
{
}

/// Retire then download: removing an identifier leaves it absent from the
/// registry, so the next download attempt on it answers 404.
pub proof fn lemma_retire_then_download(v: RegistryView, id: Seq<char>)
    ensures
        !v.transfers.remove(id).dom().contains(id),
{
}

/// Distinct identifiers: a request only ever registers an identifier that
/// was free beforehand, so two requests in a row — with nothing removed in
/// between — answer two different identifiers.
pub proof fn lemma_two_requests_distinct(
    v0: RegistryView,
    id1: Seq<char>,
    t1: TransferView,
    id2: Seq<char>,
)
    requires
        !v0.transfers.dom().contains(id1),
        !v0.transfers.insert(id1, t1).dom().contains(id2),
    ensures
        id1 != id2,
{
}

/// How many attempts a downloader makes when it starts with `retries`
/// retries in hand and every attempt finds nothing: the first attempt, plus
/// one per retry the policy grants.
pub open spec fn download_attempts(retries: u64) -> int
    decreases retries,
{
    if retries == 0 {
        1
    } else {
        1 + download_attempts((retries - 1) as u64)
    }
}

/// A downloader that never finds an uploader makes exactly
/// `download_max_retries + 1` attempts before the policy answers 503.
pub proof fn lemma_download_attempt_count(retries: u64)
    ensures
        download_attempts(retries) == retries + 1,
    decreases retries,
{
    if retries > 0 {
        lemma_download_attempt_count((retries - 1) as u64);
    }
}

} // verus!
