//! Decisions of the background tasks around documents: which documents the
//! cleaner evicts, when the persistence worker writes a snapshot and how long
//! it sleeps, and the ids given to new documents.

use vstd::prelude::*;

verus! {

/// One hour, in milliseconds: the period of the cleaner.
pub const HOUR_MS: u64 = 3600000;

/// The fixed part of the pause between two persistence ticks, in milliseconds.
pub const PERSIST_INTERVAL_MS: u64 = 3000;

/// The largest random addition to that pause, in milliseconds.
pub const PERSIST_JITTER_MS: u64 = 1000;

/// Number of characters of a new document id.
pub const DOCUMENT_ID_LEN: usize = 6;

/// How long, in milliseconds, a document may stay untouched.
pub open spec fn expiry_ms(expiry_days: u32) -> int {
    expiry_days * 24 * HOUR_MS
}

/// Whether a document untouched for `idle_ms` milliseconds is evicted.
pub fn is_expired(idle_ms: u64, expiry_days: u32) -> (r: bool)
    ensures
        r == (idle_ms > expiry_ms(expiry_days)),
{
    proof {
        assert(expiry_days * 24 * 3600000 <= u32::MAX * 86400000) by (nonlinear_arith);
    }
    let limit: u64 = expiry_days as u64 * 24 * HOUR_MS;
    idle_ms > limit
}

/// The keys, in order, of the entries idle for longer than the expiry.
pub open spec fn expired_spec(entries: Seq<(String, u64)>, expiry_days: u32) -> Seq<String>
    decreases entries.len(),
{
    if entries.len() == 0 {
        Seq::empty()
    } else {
        let rest = expired_spec(entries.drop_last(), expiry_days);
        if entries.last().1 > expiry_ms(expiry_days) {
            rest.push(entries.last().0)
        } else {
            rest
        }
    }
}

proof fn lemma_expired_member(entries: Seq<(String, u64)>, expiry_days: u32, k: String)
    ensures
        expired_spec(entries, expiry_days).contains(k) <==> exists|i: int|
            0 <= i < entries.len() && entries[i].0 == k && entries[i].1 > expiry_ms(expiry_days),
    decreases entries.len(),
{
    if entries.len() > 0 {
        let pre = entries.drop_last();
        lemma_expired_member(pre, expiry_days, k);
        let rest = expired_spec(pre, expiry_days);
        if entries.last().1 > expiry_ms(expiry_days) {
            assert(rest.push(entries.last().0).contains(k) <==> (rest.contains(k) || entries.last().0 == k)) by {
                if rest.push(entries.last().0).contains(k) {
                    let j = choose|j: int| 0 <= j < rest.len() + 1 && rest.push(entries.last().0)[j] == k;
                    if j < rest.len() {
                        assert(rest[j] == k);
                    }
                }
                if rest.contains(k) {
                    let j = choose|j: int| 0 <= j < rest.len() && rest[j] == k;
                    assert(rest.push(entries.last().0)[j] == k);
                }
                if entries.last().0 == k {
                    assert(rest.push(entries.last().0)[rest.len() as int] == k);
                }
            }
        }
        if exists|i: int| 0 <= i < entries.len() && entries[i].0 == k && entries[i].1 > expiry_ms(expiry_days) {
            let i = choose|i: int| 0 <= i < entries.len() && entries[i].0 == k && entries[i].1 > expiry_ms(expiry_days);
            if i < pre.len() {
                assert(pre[i] == entries[i]);
            }
        }
        if exists|i: int| 0 <= i < pre.len() && pre[i].0 == k && pre[i].1 > expiry_ms(expiry_days) {
            let i = choose|i: int| 0 <= i < pre.len() && pre[i].0 == k && pre[i].1 > expiry_ms(expiry_days);
            assert(entries[i] == pre[i]);
        }
    }
}

/// The keys of the documents that the cleaner removes, given each key with
/// the milliseconds since it was last touched. A key is returned exactly when
/// its document has been idle for longer than `expiry_days` days.
pub fn expired_keys(entries: &Vec<(String, u64)>, expiry_days: u32) -> (r: Vec<String>)
    ensures
        r@ == expired_spec(entries@, expiry_days),
        forall|k: String|
            r@.contains(k) <==> exists|i: int|
                0 <= i < entries@.len() && entries@[i].0 == k && entries@[i].1 > expiry_ms(
                    expiry_days,
                ),
{
    let mut r: Vec<String> = Vec::new();
    let mut i: usize = 0;
    while i < entries.len()
        invariant
            0 <= i <= entries@.len(),
            r@ == expired_spec(entries@.take(i as int), expiry_days),
        decreases entries@.len() - i,
    {
        proof {
            assert(entries@.take(i as int + 1).drop_last() =~= entries@.take(i as int));
        }
        if is_expired(entries[i].1, expiry_days) {
            r.push(entries[i].0.clone());
        }
        i += 1;
    }
    proof {
        assert(entries@.take(i as int) =~= entries@);
        assert forall|k: String| r@.contains(k) <==> exists|i: int|
            0 <= i < entries@.len() && entries@[i].0 == k && entries@[i].1 > expiry_ms(expiry_days) by {
            lemma_expired_member(entries@, expiry_days, k);
        }
    }
    r
}

/// Relies on `rand::Rng::gen_range` over `0..=max`, never empty: a number
/// in that range.
#[verifier::external_body]
fn random_up_to(max: u64) -> (r: u64)
    ensures
        r <= max,
{
    rand::Rng::gen_range(&mut rand::thread_rng(), 0..=max)
}

/// The pause before the next persistence tick for a drawn jitter: the fixed
/// interval plus the jitter.
pub fn persist_interval_with(jitter_ms: u64) -> (r: u64)
    requires
        jitter_ms <= PERSIST_JITTER_MS,
    ensures
        r == PERSIST_INTERVAL_MS + jitter_ms,
{
    PERSIST_INTERVAL_MS + jitter_ms
}

/// The pause before the next persistence tick: the fixed interval plus a
/// random jitter, so that the workers of many documents drift apart.
pub fn persist_interval_ms() -> (r: u64)
    ensures
        PERSIST_INTERVAL_MS <= r <= PERSIST_INTERVAL_MS + PERSIST_JITTER_MS,
{
    persist_interval_with(random_up_to(PERSIST_JITTER_MS))
}

/// A character that may stand in a document id: an ASCII letter or digit.
pub open spec fn is_id_char(c: char) -> bool {
    ('a' <= c && c <= 'z') || ('A' <= c && c <= 'Z') || ('0' <= c && c <= '9')
}

/// Relies on `rand::distributions::Alphanumeric`, whose samples are ASCII
/// letters and digits: `len` of them, each turned into a `char`.
#[verifier::external_body]
fn random_alphanumeric(len: usize) -> (r: String)
    ensures
        r@.len() == len,
        forall|i: int| 0 <= i < len ==> is_id_char(#[trigger] r@[i]),
{
    rand::Rng::sample_iter(rand::thread_rng(), &rand::distributions::Alphanumeric).take(len).map(
        char::from,
    ).collect()
}

/// A random id for a new document. The caller retries while the id is taken.
pub fn new_document_id() -> (r: String)
    ensures
        r@.len() == DOCUMENT_ID_LEN,
        forall|i: int| 0 <= i < r@.len() ==> is_id_char(#[trigger] r@[i]),
{
    random_alphanumeric(DOCUMENT_ID_LEN)
}

/// Whether a drawn id may name a new document: no document in memory has it,
/// and the store answered that it holds none under it. `stored` is `None`
/// where the store could not be asked; without a store, pass `Some(false)`.
pub fn id_available(in_memory: bool, stored: Option<bool>) -> (r: bool)
    ensures
        r == (!in_memory && stored == Some(false)),
{
    !in_memory && match stored {
        Some(b) => !b,
        None => false,
    }
}

/// What the persistence worker of one document remembers: the revision it
/// last wrote.
pub struct PersistState {
    pub last_revision: usize,
}

impl PersistState {
    /// A worker that has written nothing yet.
    pub fn new() -> (r: PersistState)
        ensures
            r.last_revision == 0,
    {
        PersistState { last_revision: 0 }
    }

    /// Whether a snapshot is due: the document moved past the revision last
    /// written.
    pub fn should_persist(&self, revision: usize) -> (r: bool)
        ensures
            r == (revision > self.last_revision),
    {
        revision > self.last_revision
    }

    /// Records the outcome of writing the snapshot of `revision`: on success
    /// that revision is the last written, on failure nothing changes and the
    /// next tick tries again.
    pub fn record(&mut self, revision: usize, stored: bool)
        ensures
            stored ==> final(self).last_revision == revision,
            !stored ==> final(self).last_revision == old(self).last_revision,
    {
        if stored {
            self.last_revision = revision;
        }
    }
}

} // verus!
