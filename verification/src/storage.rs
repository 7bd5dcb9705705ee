//! A model of the persisted-data resource that save requests write. The
//! file lock serializes concurrent savers, so the resource only ever sees
//! one whole-body write at a time; this module states and proves what that
//! discipline guarantees about the stored bytes.

use vstd::prelude::*;

verus! {

/// What one save leaves in the resource: the body, whole, in place of
/// whatever was there. A save is never a partial or positional write.
pub open spec fn spec_save(prev: Seq<u8>, body: Seq<u8>) -> Seq<u8> {
    body
}

/// What a run of saves, in the order the lock granted them, leaves in the
/// resource.
pub open spec fn spec_apply_saves(init: Seq<u8>, bodies: Seq<Seq<u8>>) -> Seq<u8>
    decreases bodies.len(),
{
    if bodies.len() == 0 {
        init
    } else {
        spec_save(spec_apply_saves(init, bodies.drop_last()), bodies.last())
    }
}

/// The persisted-data resource, as the bytes it holds.
pub struct DataStore {
    pub contents: Vec<u8>,
}

impl DataStore {
    /// An empty resource, as it stands before any save.
    pub fn new() -> (r: DataStore)
        ensures
            r.contents@.len() == 0,
    {
        DataStore { contents: Vec::new() }
    }

    /// One save: the body replaces the contents wholly.
    pub fn save(&mut self, body: &[u8])
        ensures
            final(self).contents@ == spec_save(old(self).contents@, body@),
    {
        self.contents.clear();
        self.contents.extend_from_slice(body);
    }

    /// A run of saves, serialized as the lock grants them.
    pub fn apply_saves(&mut self, bodies: &Vec<Vec<u8>>)
        ensures
            final(self).contents@ == spec_apply_saves(old(self).contents@, bodies@.map_values(|b: Vec<u8>| b@)),
    {
        let ghost all = bodies@.map_values(|b: Vec<u8>| b@);
        let mut i: usize = 0;
        while i < bodies.len()
            invariant
                i <= bodies@.len(),
                all == bodies@.map_values(|b: Vec<u8>| b@),
                self.contents@ == spec_apply_saves(old(self).contents@, all.take(i as int)),
            decreases bodies@.len() - i,
        {
            self.save(bodies[i].as_slice());
            proof {
                assert(all.take(i as int + 1).drop_last() =~= all.take(i as int));
                assert(all.take(i as int + 1).last() == all[i as int]);
            }
            i += 1;
        }
        proof {
            assert(all.take(all.len() as int) =~= all);
        }
    }
}

/// Serialized saves never interleave: whatever was stored before, after any
/// non-empty run of saves the resource holds exactly one of the submitted
/// bodies, whole — the last one the lock admitted — and never a mixture of
/// two.
pub proof fn lemma_saves_never_interleave(init: Seq<u8>, bodies: Seq<Seq<u8>>)
    requires
        bodies.len() > 0,
    ensures
        spec_apply_saves(init, bodies) == bodies.last(),
        exists|k: int| 0 <= k < bodies.len() && spec_apply_saves(init, bodies) == bodies[k],
{
    assert(spec_apply_saves(init, bodies) == bodies[bodies.len() - 1]);
}

} // verus!
