use vstd::prelude::*;

verus! {

// Pending-change records: one durable marker per outbound change, created by
// the offline-change detector and deleted by the push engine only after the
// server has acknowledged the change. A record still present after a crash
// means the change may not have reached the server and is retried; an absent
// record means the change is committed.

/// `s` with every occurrence of `id` taken out.
pub open spec fn without_id(s: Seq<u64>, id: u64) -> Seq<u64>
    decreases s.len(),
{
    if s.len() == 0 {
        Seq::empty()
    } else if s.last() == id {
        without_id(s.drop_last(), id)
    } else {
        without_id(s.drop_last(), id).push(s.last())
    }
}

/// The set of pending-change record ids known to a push session.
pub struct PendingRecords {
    ids: Vec<u64>,
}

impl View for PendingRecords {
    type V = Seq<u64>;

    closed spec fn view(&self) -> Seq<u64> {
        self.ids@
    }
}

impl PendingRecords {
    pub fn new(ids: Vec<u64>) -> (r: Self)
        ensures
            r@ == ids@,
    {
        PendingRecords { ids }
    }

    pub fn contains(&self, id: u64) -> (r: bool)
        ensures
            r == self@.contains(id),
    {
        let mut i: usize = 0;
        while i < self.ids.len()
            invariant
                i <= self.ids.len(),
                forall|k: int| 0 <= k < i ==> self.ids@[k] != id,
            decreases self.ids.len() - i,
        {
            if self.ids[i] == id {
                return true;
            }
            i = i + 1;
        }
        false
    }

    /// Marks `id` committed: its record is deleted, so it will not be
    /// retried. Committing an id with no record changes nothing.
    pub fn commit(&mut self, id: u64) -> (removed: bool)
        ensures
            final(self)@ == without_id(old(self)@, id),
            removed == old(self)@.contains(id),
    {
        let ghost orig = self.ids@;
        let mut out: Vec<u64> = Vec::new();
        let mut i: usize = 0;
        let mut removed = false;
        while i < self.ids.len()
            invariant
                i <= self.ids.len(),
                self.ids@ == orig,
                out@ == without_id(orig.subrange(0, i as int), id),
                removed == orig.subrange(0, i as int).contains(id),
            decreases self.ids.len() - i,
        {
            proof {
                let pre = orig.subrange(0, i as int);
                let post = orig.subrange(0, i + 1);
                assert(post.drop_last() =~= pre);
                assert(post.last() == orig[i as int]);
                if orig[i as int] == id {
                    assert(post[i as int] == id);
                } else if removed {
                    let k = choose|k: int| 0 <= k < pre.len() && pre[k] == id;
                    assert(post[k] == id);
                } else {
                    assert forall|k: int| 0 <= k < post.len() implies #[trigger] post[k]
                        != id by {
                        if k < i {
                            assert(pre[k] == orig[k]);
                        }
                    }
                    assert(!post.contains(id));
                }
            }
            let x = self.ids[i];
            if x == id {
                removed = true;
            } else {
                out.push(x);
            }
            i = i + 1;
        }
        proof {
            assert(orig.subrange(0, orig.len() as int) =~= orig);
        }
        self.ids = out;
        removed
    }
}

/// Committing is idempotent: once a record is gone, committing the same
/// change again deletes nothing and re-enqueues nothing.
pub proof fn lemma_commit_idempotent(s: Seq<u64>, id: u64)
    ensures
        without_id(without_id(s, id), id) == without_id(s, id),
    decreases s.len(),
{
    lemma_without_id_not_contains(s, id);
    lemma_commit_absent(without_id(s, id), id);
}

/// Committing an id whose record is already absent leaves the records
/// exactly as they were.
pub proof fn lemma_commit_absent(s: Seq<u64>, id: u64)
    requires
        !s.contains(id),
    ensures
        without_id(s, id) == s,
    decreases s.len(),
{
    if s.len() > 0 {
        assert(!s.drop_last().contains(id)) by {
            assert forall|k: int| 0 <= k < s.drop_last().len() implies s.drop_last()[k] != id by {
                assert(s.drop_last()[k] == s[k]);
            }
        };
        lemma_commit_absent(s.drop_last(), id);
        assert(without_id(s, id) =~= s);
    } else {
        assert(without_id(s, id) =~= s);
    }
}

proof fn lemma_without_id_not_contains(s: Seq<u64>, id: u64)
    ensures
        !without_id(s, id).contains(id),
    decreases s.len(),
{
    if s.len() > 0 {
        lemma_without_id_not_contains(s.drop_last(), id);
        let w = without_id(s.drop_last(), id);
        if s.last() != id {
            assert forall|k: int| 0 <= k < without_id(s, id).len() implies #[trigger] without_id(
                s,
                id,
            )[k] != id by {
                if k < w.len() {
                    assert(without_id(s, id)[k] == w[k]);
                    if w[k] == id {
                        assert(w.contains(id));
                    }
                }
            }
            assert(!without_id(s, id).contains(id));
        }
    }
}

} // verus!
