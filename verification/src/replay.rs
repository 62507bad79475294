//! Replay guard: a bounded, mutating lookup structure on the receiver
//! that remembers the fingerprint of every accepted plaintext together
//! with the nonce it arrived under, and rejects a resubmission of the
//! identical message.
//!
//! The guard is modelled as a map from fingerprints to (nonce, time)
//! pairs. A message is a replay exactly when its fingerprint is
//! already recorded with a bit-identical nonce; the same plaintext
//! arriving under a different nonce refreshes the record instead.
//! Entries persist for the life of the guard: there is no eviction.
use vstd::prelude::*;

verus! {

use vstd::slice::slice_to_vec;

/// One remembered upload: fingerprint of the accepted plaintext, the
/// nonce it arrived under, and when it was seen (seconds).
struct ReplayEntry {
    fingerprint: Vec<u8>,
    nonce: Vec<u8>,
    time_seen: u64,
}

/// Verdict of the replay check.
#[derive(Clone, Copy, Debug, PartialEq, Eq, Structural)]
pub enum Verdict {
    /// Never seen: the message was recorded and may be acted on.
    Fresh,
    /// Seen before, with the time the identical message was first
    /// recorded; the message must not be acted on.
    Replayed(u64),
}

/// The record kept for one fingerprint: the nonce it last arrived
/// under and the time that arrival was recorded.
pub type ReplayRecord = (Seq<u8>, u64);

/// What the check returns against a given guard state.
pub open spec fn spec_verdict(m: Map<Seq<u8>, ReplayRecord>, fp: Seq<u8>, nonce: Seq<u8>) -> Verdict {
    if m.contains_key(fp) && m[fp].0 == nonce {
        Verdict::Replayed(m[fp].1)
    } else {
        Verdict::Fresh
    }
}

/// The guard state after a check: a fresh message is recorded under
/// its fingerprint (overwriting any record with another nonce); a
/// replayed one records nothing.
pub open spec fn spec_record(
    m: Map<Seq<u8>, ReplayRecord>,
    fp: Seq<u8>,
    nonce: Seq<u8>,
    now: u64,
) -> Map<Seq<u8>, ReplayRecord> {
    if spec_verdict(m, fp, nonce) == Verdict::Fresh {
        m.insert(fp, (nonce, now))
    } else {
        m
    }
}

/// The view of one stored entry.
spec fn entry_view(e: ReplayEntry) -> (Seq<u8>, Seq<u8>, u64) {
    (e.fingerprint@, e.nonce@, e.time_seen)
}

/// No two stored entries share a fingerprint.
spec fn distinct_keys(vs: Seq<(Seq<u8>, Seq<u8>, u64)>) -> bool {
    forall|i: int, j: int| 0 <= i < j < vs.len() ==> (#[trigger] vs[i]).0 != (#[trigger] vs[j]).0
}

/// The map a sequence of entries stands for: later entries win, which
/// with distinct fingerprints is the one entry of that fingerprint.
spec fn map_of(vs: Seq<(Seq<u8>, Seq<u8>, u64)>) -> Map<Seq<u8>, ReplayRecord>
    decreases vs.len(),
{
    if vs.len() == 0 {
        Map::empty()
    } else {
        map_of(vs.drop_last()).insert(vs.last().0, (vs.last().1, vs.last().2))
    }
}

proof fn lemma_map_of_absent(vs: Seq<(Seq<u8>, Seq<u8>, u64)>, fp: Seq<u8>)
    requires
        forall|j: int| 0 <= j < vs.len() ==> (#[trigger] vs[j]).0 != fp,
    ensures
        !map_of(vs).contains_key(fp),
    decreases vs.len(),
{
    if vs.len() > 0 {
        lemma_map_of_absent(vs.drop_last(), fp);
    }
}

proof fn lemma_map_of_present(vs: Seq<(Seq<u8>, Seq<u8>, u64)>, i: int)
    requires
        distinct_keys(vs),
        0 <= i < vs.len(),
    ensures
        map_of(vs).contains_key(vs[i].0),
        map_of(vs)[vs[i].0] == (vs[i].1, vs[i].2),
    decreases vs.len(),
{
    if i < vs.len() - 1 {
        lemma_map_of_present(vs.drop_last(), i);
        assert(vs.last().0 != vs[i].0);
    }
}

proof fn lemma_map_of_update(vs: Seq<(Seq<u8>, Seq<u8>, u64)>, i: int, e: (Seq<u8>, Seq<u8>, u64))
    requires
        distinct_keys(vs),
        0 <= i < vs.len(),
        e.0 == vs[i].0,
    ensures
        map_of(vs.update(i, e)) =~= map_of(vs).insert(e.0, (e.1, e.2)),
    decreases vs.len(),
{
    let upd = vs.update(i, e);
    if i == vs.len() - 1 {
        assert(upd.drop_last() =~= vs.drop_last());
        assert(upd.last() == e);
    } else {
        assert(upd.drop_last() =~= vs.drop_last().update(i, e));
        assert(upd.last() == vs.last());
        lemma_map_of_update(vs.drop_last(), i, e);
        assert(vs.last().0 != e.0);
    }
}

/// Compare two byte slices for equality of contents.
fn bytes_eq(a: &[u8], b: &[u8]) -> (r: bool)
    ensures
        r == (a@ == b@),
{
    if a.len() != b.len() {
        return false;
    }
    let mut i: usize = 0;
    while i < a.len()
        invariant
            i <= a.len(),
            a@.len() == b@.len(),
            forall|j: int| 0 <= j < i ==> a@[j] == b@[j],
        decreases a.len() - i,
    {
        if a[i] != b[i] {
            return false;
        }
        i += 1;
    }
    proof {
        assert(a@ =~= b@);
    }
    true
}

/// The receiver's shared replay-detection table. One instance is made
/// at receiver construction and handed to every connection; callers
/// must hold it under mutual exclusion around each check.
pub struct ReplayGuard {
    entries: Vec<ReplayEntry>,
}

impl View for ReplayGuard {
    type V = Map<Seq<u8>, ReplayRecord>;

    closed spec fn view(&self) -> Map<Seq<u8>, ReplayRecord> {
        map_of(self.entries@.map_values(|e: ReplayEntry| entry_view(e)))
    }
}

impl ReplayGuard {
    /// Internal shape every guard keeps: one entry per fingerprint.
    pub closed spec fn wf(self) -> bool {
        distinct_keys(self.entries@.map_values(|e: ReplayEntry| entry_view(e)))
    }

    /// An empty guard: nothing has been seen.
    pub fn new() -> (r: ReplayGuard)
        ensures
            r.wf(),
            r@ == Map::<Seq<u8>, ReplayRecord>::empty(),
    {
        let r = ReplayGuard { entries: Vec::new() };
        proof {
            assert(r.entries@.map_values(|e: ReplayEntry| entry_view(e)) =~= Seq::<(Seq<u8>, Seq<u8>, u64)>::empty());
        }
        r
    }

    /// How many distinct plaintexts the guard remembers.
    pub fn len(&self) -> (r: usize)
        requires
            self.wf(),
        ensures
            r == self@.dom().len(),
    {
        proof {
            Self::lemma_map_len(self.entries@.map_values(|e: ReplayEntry| entry_view(e)));
        }
        self.entries.len()
    }

    proof fn lemma_map_len(vs: Seq<(Seq<u8>, Seq<u8>, u64)>)
        requires
            distinct_keys(vs),
        ensures
            map_of(vs).dom().finite(),
            map_of(vs).dom().len() == vs.len(),
        decreases vs.len(),
    {
        if vs.len() > 0 {
            Self::lemma_map_len(vs.drop_last());
            lemma_map_of_absent(vs.drop_last(), vs.last().0);
        }
    }

    /// The atomic check-and-insert step of the receiver.
    ///
    /// Returns `Fresh` and records the message when its fingerprint is
    /// unknown or known only under another nonce; returns `Replayed`
    /// with the original arrival time, and records nothing, when the
    /// identical fingerprint and nonce were seen before.
    pub fn check_and_record(&mut self, fingerprint: &[u8], nonce: &[u8], now: u64) -> (r: Verdict)
        requires
            old(self).wf(),
        ensures
            final(self).wf(),
            r == spec_verdict(old(self)@, fingerprint@, nonce@),
            final(self)@ == spec_record(old(self)@, fingerprint@, nonce@, now),
    {
        let ghost vs0 = self.entries@.map_values(|e: ReplayEntry| entry_view(e));
        let mut i: usize = 0;
        while i < self.entries.len()
            invariant
                *self == *old(self),
                self.entries@.map_values(|e: ReplayEntry| entry_view(e)) == vs0,
                distinct_keys(vs0),
                i <= vs0.len(),
                forall|j: int| 0 <= j < i ==> (#[trigger] vs0[j]).0 != fingerprint@,
            decreases self.entries.len() - i,
        {
            let hit = bytes_eq(self.entries[i].fingerprint.as_slice(), fingerprint);
            if hit {
                proof {
                    lemma_map_of_present(vs0, i as int);
                }
                let same_nonce = bytes_eq(self.entries[i].nonce.as_slice(), nonce);
                if same_nonce {
                    return Verdict::Replayed(self.entries[i].time_seen);
                }
                let entry = ReplayEntry {
                    fingerprint: slice_to_vec(fingerprint),
                    nonce: slice_to_vec(nonce),
                    time_seen: now,
                };
                self.entries[i] = entry;
                proof {
                    let vs1 = self.entries@.map_values(|e: ReplayEntry| entry_view(e));
                    assert(vs1 =~= vs0.update(i as int, (fingerprint@, nonce@, now)));
                    lemma_map_of_update(vs0, i as int, (fingerprint@, nonce@, now));
                    assert(distinct_keys(vs1));
                }
                return Verdict::Fresh;
            }
            i += 1;
        }
        proof {
            lemma_map_of_absent(vs0, fingerprint@);
        }
        let entry = ReplayEntry {
            fingerprint: slice_to_vec(fingerprint),
            nonce: slice_to_vec(nonce),
            time_seen: now,
        };
        self.entries.push(entry);
        proof {
            let vs1 = self.entries@.map_values(|e: ReplayEntry| entry_view(e));
            assert(vs1 =~= vs0.push((fingerprint@, nonce@, now)));
            assert(vs1.drop_last() =~= vs0);
            assert(distinct_keys(vs1));
        }
        Verdict::Fresh
    }
}

/// Replay rejection: once a fresh message is recorded, submitting the
/// identical fingerprint and nonce again is rejected, with the time
/// the first submission was recorded.
pub proof fn lemma_replay_rejected(
    m: Map<Seq<u8>, ReplayRecord>,
    fp: Seq<u8>,
    nonce: Seq<u8>,
    now: u64,
)
    requires
        spec_verdict(m, fp, nonce) == Verdict::Fresh,
    ensures
        spec_verdict(spec_record(m, fp, nonce, now), fp, nonce) == Verdict::Replayed(now),
{
}

/// Distinct uploads pass in either order: recording one message never
/// turns another into a replay, as long as the two differ in
/// fingerprint or in nonce.
pub proof fn lemma_distinct_uploads_stay_fresh(
    m: Map<Seq<u8>, ReplayRecord>,
    fp1: Seq<u8>,
    nonce1: Seq<u8>,
    now1: u64,
    fp2: Seq<u8>,
    nonce2: Seq<u8>,
)
    requires
        spec_verdict(m, fp2, nonce2) == Verdict::Fresh,
        fp1 != fp2 || nonce1 != nonce2,
    ensures
        spec_verdict(spec_record(m, fp1, nonce1, now1), fp2, nonce2) == Verdict::Fresh,
{
}

} // verus!
