//! Offline memory checking: a write digest and a read digest kept as
//! multiset hashes of the memory records written and read.

use vstd::prelude::*;
use crate::error::AtlasError;
use crate::field::Fq;
use crate::grumpkin::{GPoint, point_valid, effective, sum_of_two};
use crate::digest::MultisetDigest;
use crate::hasher::{
    MultisetHash,
    all_map,
    multiset_digest_spec,
    law_order_independence,
    law_single_message_digests_differ,
};
use crate::field::fq_modulus;
use crate::relation::{map_spec, map_failure, map_point};

verus! {

/// The tweak bound of the relation used for memory records.
pub open spec fn rolling_bound() -> nat {
    256
}

/// Running write and read digests of a memory log.
pub struct RollingMemoryDigest {
    hasher: MultisetHash,
    write_d: MultisetDigest,
    read_d: MultisetDigest,
    writes: Ghost<Seq<nat>>,
    reads: Ghost<Seq<nat>>,
}

/// Adding one message to a sequence whose messages all map, when it maps too.
proof fn lemma_all_map_push(s: Seq<nat>, m: nat, bound: nat)
    requires
        all_map(s, bound),
        map_spec(m, bound) is Some,
    ensures
        all_map(s.push(m), bound),
{
    assert forall|i: int| 0 <= i < s.push(m).len() implies (#[trigger] map_spec(
        s.push(m)[i],
        bound,
    )) is Some by {
        if i < s.len() {
            assert(s.push(m)[i] == s[i]);
        }
    }
}

impl RollingMemoryDigest {
    /// The messages recorded as written, in order.
    pub closed spec fn writes(&self) -> Seq<nat> {
        self.writes@
    }

    /// The messages recorded as read, in order.
    pub closed spec fn reads(&self) -> Seq<nat> {
        self.reads@
    }

    /// The write digest.
    pub closed spec fn write_digest(&self) -> MultisetDigest {
        self.write_d
    }

    /// The read digest.
    pub closed spec fn read_digest(&self) -> MultisetDigest {
        self.read_d
    }

    /// Each digest is the multiset hash of its log and a point of the group,
    /// and every message of each log maps to the curve.
    pub open spec fn logs_hashed(&self) -> bool {
        &&& all_map(self.writes(), rolling_bound())
        &&& all_map(self.reads(), rolling_bound())
        &&& self.write_digest().0@ == multiset_digest_spec(self.writes(), rolling_bound())
        &&& self.read_digest().0@ == multiset_digest_spec(self.reads(), rolling_bound())
        &&& point_valid(self.write_digest().0@)
        &&& point_valid(self.read_digest().0@)
    }

    /// Each digest is the multiset hash of its log, which all maps.
    pub closed spec fn wf(&self) -> bool {
        &&& self.hasher.tweak_bound() == rolling_bound()
        &&& all_map(self.writes@, rolling_bound())
        &&& all_map(self.reads@, rolling_bound())
        &&& self.write_d.0@ == multiset_digest_spec(self.writes@, rolling_bound())
        &&& self.read_d.0@ == multiset_digest_spec(self.reads@, rolling_bound())
        &&& point_valid(self.write_d.0@)
        &&& point_valid(self.read_d.0@)
    }

    /// Empty logs, whose digests are both the point at infinity.
    pub fn new() -> (r: Self)
        ensures
            r.wf(),
            r.logs_hashed(),
            r.writes() == Seq::<nat>::empty(),
            r.reads() == Seq::<nat>::empty(),
    {
        let hasher = MultisetHash::new(256);
        let write_d = MultisetDigest::empty();
        let read_d = MultisetDigest::empty();
        Self { hasher, write_d, read_d, writes: Ghost(Seq::empty()), reads: Ghost(Seq::empty()) }
    }

    /// The write digest: the multiset hash of the messages written.
    pub fn write_d(&self) -> (r: MultisetDigest)
        ensures
            r == self.write_digest(),
    {
        self.write_d
    }

    /// The read digest: the multiset hash of the messages read.
    pub fn read_d(&self) -> (r: MultisetDigest)
        ensures
            r == self.read_digest(),
    {
        self.read_d
    }

    /// Adding a message to a log whose digest is its hash keeps the digest the hash of the log.
    proof fn lemma_log_step(log: Seq<nat>, m: nat, old_d: (nat, nat, bool), new_d: (nat, nat, bool))
        requires
            all_map(log, rolling_bound()),
            map_spec(m, rolling_bound()) is Some,
            old_d == multiset_digest_spec(log, rolling_bound()),
            point_valid(old_d),
            sum_of_two(old_d, map_point(m, rolling_bound()), new_d),
        ensures
            all_map(log.push(m), rolling_bound()),
            new_d == multiset_digest_spec(log.push(m), rolling_bound()),
            point_valid(new_d),
    {
        lemma_all_map_push(log, m, rolling_bound());
        crate::hasher::lemma_points_multiset_valid(log, rolling_bound());
        assert(log.push(m).drop_last() =~= log);
        assert(effective(map_point(m, rolling_bound())) == map_point(m, rolling_bound()));
    }

    /// Record a write of `message`: the write digest becomes the hash of the
    /// write log with `message` added. Fails, changing nothing, when the
    /// message does not map.
    pub fn record_write(&mut self, message: Fq) -> (r: Result<(), AtlasError>)
        requires
            old(self).wf(),
        ensures
            final(self).wf(),
            final(self).logs_hashed(),
            final(self).reads() == old(self).reads(),
            final(self).read_digest() == old(self).read_digest(),
            match r {
                Ok(()) => {
                    &&& map_spec(message@, rolling_bound()) is Some
                    &&& final(self).writes() == old(self).writes().push(message@)
                    &&& sum_of_two(
                        old(self).write_digest().0@,
                        map_point(message@, rolling_bound()),
                        final(self).write_digest().0@,
                    )
                },
                Err(e) => {
                    &&& final(self).writes() == old(self).writes()
                    &&& final(self).write_digest() == old(self).write_digest()
                    &&& map_spec(message@, rolling_bound()) is None
                    &&& e == map_failure(256)
                },
            },
    {
        let (new_d, _) = self.hasher.update(&self.write_d, message)?;
        proof {
            Self::lemma_log_step(self.writes@, message@, self.write_d.0@, new_d.0@);
        }
        self.write_d = new_d;
        self.writes = Ghost(self.writes@.push(message@));
        Ok(())
    }

    /// Record a read of `message`: the read digest becomes the hash of the
    /// read log with `message` added. Fails, changing nothing, when the
    /// message does not map.
    pub fn record_read(&mut self, message: Fq) -> (r: Result<(), AtlasError>)
        requires
            old(self).wf(),
        ensures
            final(self).wf(),
            final(self).logs_hashed(),
            final(self).writes() == old(self).writes(),
            final(self).write_digest() == old(self).write_digest(),
            match r {
                Ok(()) => {
                    &&& map_spec(message@, rolling_bound()) is Some
                    &&& final(self).reads() == old(self).reads().push(message@)
                    &&& sum_of_two(
                        old(self).read_digest().0@,
                        map_point(message@, rolling_bound()),
                        final(self).read_digest().0@,
                    )
                },
                Err(e) => {
                    &&& final(self).reads() == old(self).reads()
                    &&& final(self).read_digest() == old(self).read_digest()
                    &&& map_spec(message@, rolling_bound()) is None
                    &&& e == map_failure(256)
                },
            },
    {
        let (new_d, _) = self.hasher.update(&self.read_d, message)?;
        proof {
            Self::lemma_log_step(self.reads@, message@, self.read_d.0@, new_d.0@);
        }
        self.read_d = new_d;
        self.reads = Ghost(self.reads@.push(message@));
        Ok(())
    }

    /// Succeeds exactly when the write digest equals the read digest, in
    /// particular whenever the same multiset of messages was written as read.
    pub fn assert_consistent(&self) -> (r: Result<(), AtlasError>)
        requires
            self.wf(),
        ensures
            self.logs_hashed(),
            r is Ok <==> self.write_digest() == self.read_digest(),
            r is Err ==> r == Err::<(), AtlasError>(AtlasError::MemoryInconsistent),
            self.writes().to_multiset() == self.reads().to_multiset() ==> r is Ok,
    {
        proof {
            if self.writes@.to_multiset() == self.reads@.to_multiset() {
                law_order_independence(self.writes@, self.reads@, rolling_bound());
            }
            GPoint::lemma_view_eq(self.write_d.0, self.read_d.0);
        }
        if self.write_d == self.read_d {
            Ok(())
        } else {
            Err(AtlasError::MemoryInconsistent)
        }
    }
}

/// A log that wrote one message and read a different one is inconsistent:
/// its two digests differ, so `assert_consistent` fails on it.
pub proof fn law_single_write_read_inconsistent(r: RollingMemoryDigest, m1: nat, m2: nat)
    requires
        r.logs_hashed(),
        r.writes() == seq![m1],
        r.reads() == seq![m2],
        m1 != m2,
        (m1 + 1) * rolling_bound() <= fq_modulus(),
        (m2 + 1) * rolling_bound() <= fq_modulus(),
    ensures
        r.write_digest() != r.read_digest(),
{
    assert(seq![m1][0] == m1);
    assert(seq![m2][0] == m2);
    law_single_message_digests_differ(m1, m2, rolling_bound());
}

impl Default for RollingMemoryDigest {
    fn default() -> (r: Self)
        ensures
            r.wf(),
            r.logs_hashed(),
            r.writes() == Seq::<nat>::empty(),
            r.reads() == Seq::<nat>::empty(),
    {
        Self::new()
    }
}

} // verus!
