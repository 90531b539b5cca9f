//! The association table in memory.

use vstd::prelude::*;
use crate::entity::ContentTagEntity;
use crate::error::StorageError;
use crate::interface::ContentTagInterface;
use crate::tables::{links_of_content, links_of_tag, links_without_content, links_without_tag};

verus! {

/// The pair of each association, in order.
pub open spec fn link_pairs(s: Seq<ContentTagEntity>) -> Seq<(i64, i64)> {
    Seq::new(s.len(), |i: int| s[i].pair())
}

/// The end of the pair `p` that a removal goes by: the content item, or the
/// tag.
pub open spec fn end_of(p: (i64, i64), by_content: bool) -> i64 {
    if by_content {
        p.0
    } else {
        p.1
    }
}

/// What `s` holds once `x`, which it did not hold, is appended.
proof fn lemma_push_fresh<A>(s: Seq<A>, x: A)
    requires
        s.no_duplicates(),
        !s.contains(x),
    ensures
        s.push(x).no_duplicates(),
        forall|y: A| #[trigger] s.push(x).contains(y) <==> (s.contains(y) || y == x),
{
    let t = s.push(x);
    assert forall|y: A| #[trigger] t.contains(y) <==> (s.contains(y) || y == x) by {
        if t.contains(y) {
            let k = choose|k: int| 0 <= k < t.len() && t[k] == y;
            if k < s.len() {
                assert(s[k] == y);
            }
        }
        if s.contains(y) {
            let k = choose|k: int| 0 <= k < s.len() && s[k] == y;
            assert(t[k] == y);
        }
        if y == x {
            assert(t[s.len() as int] == y);
        }
    }
    assert forall|i: int, j: int| 0 <= i < t.len() && 0 <= j < t.len() && i != j implies t[i]
        != t[j] by {
        if i < s.len() && j < s.len() {
            assert(s[i] != s[j]);
        } else if i < s.len() {
            assert(s[i] == t[i]);
        } else {
            assert(s[j] == t[j]);
        }
    }
}

/// The association rows. No pair occurs twice.
pub struct MemoryContentTagRepository {
    stored: Vec<ContentTagEntity>,
}

impl MemoryContentTagRepository {
    #[verifier::type_invariant]
    spec fn well_formed(&self) -> bool {
        link_pairs(self.stored@).no_duplicates()
    }

    /// A table without rows.
    pub fn new() -> (repo: Self)
        ensures
            repo.rows() == Set::<(i64, i64)>::empty(),
    {
        let repo = Self { stored: Vec::new() };
        assert(repo.rows() =~= Set::<(i64, i64)>::empty());
        repo
    }

    /// A table with the same rows.
    pub fn duplicate(&self) -> (copy: Self)
        ensures
            copy.rows() == self.rows(),
    {
        proof {
            use_type_invariant(self);
        }
        let mut stored: Vec<ContentTagEntity> = Vec::new();
        let mut i: usize = 0;
        while i < self.stored.len()
            invariant
                i <= self.stored.len(),
                stored.len() == i,
                forall|k: int| 0 <= k < i ==> stored[k] == self.stored[k],
            decreases self.stored.len() - i,
        {
            stored.push(self.stored[i]);
            i = i + 1;
        }
        assert(stored@ =~= self.stored@);
        Self { stored }
    }

    /// Where the row of the pair `(content_id, tag_id)` stands, if there is
    /// one.
    fn position(&self, content_id: i64, tag_id: i64) -> (at: Option<usize>)
        ensures
            at matches Some(i) ==> i < self.stored.len() && self.stored[i as int].pair() == (
                content_id,
                tag_id,
            ),
            at matches Some(i) ==> self.rows().contains((content_id, tag_id)),
            at is None ==> !self.rows().contains((content_id, tag_id)),
    {
        let ghost pairs = link_pairs(self.stored@);
        let mut i: usize = 0;
        while i < self.stored.len()
            invariant
                i <= self.stored.len(),
                pairs == link_pairs(self.stored@),
                forall|k: int| 0 <= k < i ==> (#[trigger] pairs[k]) != (content_id, tag_id),
            decreases self.stored.len() - i,
        {
            if self.stored[i].content_id == content_id && self.stored[i].tag_id == tag_id {
                assert(pairs[i as int] == (content_id, tag_id));
                return Some(i);
            }
            assert(pairs[i as int] != (content_id, tag_id));
            i = i + 1;
        }
        None
    }

    /// Deletes every row whose content item, or whose tag, is `id`, and
    /// returns how many rows went.
    fn delete_by(&mut self, by_content: bool, id: i64) -> (count: u64)
        ensures
            final(self).rows() == Set::new(
                |p: (i64, i64)| old(self).rows().contains(p) && end_of(p, by_content) != id,
            ),
            count == Set::new(
                |p: (i64, i64)| old(self).rows().contains(p) && end_of(p, by_content) == id,
            ).len(),
    {
        proof {
            use_type_invariant(&*self);
        }
        let ghost pairs = link_pairs(self.stored@);
        let mut stored: Vec<ContentTagEntity> = Vec::new();
        core::mem::swap(&mut self.stored, &mut stored);
        let mut kept: Vec<ContentTagEntity> = Vec::new();
        let ghost mut gone: Seq<(i64, i64)> = Seq::empty();
        let mut count: u64 = 0;
        let mut i: usize = 0;
        while i < stored.len()
            invariant
                i <= stored.len(),
                pairs == link_pairs(stored@),
                pairs.no_duplicates(),
                link_pairs(kept@).no_duplicates(),
                gone.no_duplicates(),
                count == gone.len(),
                count <= i,
                forall|p: (i64, i64)| #[trigger]
                    link_pairs(kept@).contains(p) <==> (pairs.subrange(0, i as int).contains(p)
                        && end_of(p, by_content) != id),
                forall|p: (i64, i64)| #[trigger]
                    gone.contains(p) <==> (pairs.subrange(0, i as int).contains(p) && end_of(
                        p,
                        by_content,
                    ) == id),
            decreases stored.len() - i,
        {
            let row = stored[i];
            let end = if by_content {
                row.content_id
            } else {
                row.tag_id
            };
            proof {
                let p = row.pair();
                let shorter = pairs.subrange(0, i as int);
                let longer = pairs.subrange(0, i as int + 1);
                assert(pairs[i as int] == p);
                assert(longer =~= shorter.push(p));
                assert(!shorter.contains(p)) by {
                    if shorter.contains(p) {
                        let k = choose|k: int| 0 <= k < shorter.len() && shorter[k] == p;
                        assert(pairs[k] == pairs[i as int]);
                    }
                }
                assert(shorter.no_duplicates()) by {
                    assert forall|a: int, b: int|
                        0 <= a < shorter.len() && 0 <= b < shorter.len() && a != b implies {
                        shorter[a] != shorter[b]
                    } by {
                        assert(pairs[a] != pairs[b]);
                    }
                }
                lemma_push_fresh(shorter, p);
                if end != id {
                    lemma_push_fresh(link_pairs(kept@), p);
                    assert(link_pairs(kept@.push(row)) =~= link_pairs(kept@).push(p));
                } else {
                    lemma_push_fresh(gone, p);
                }
            }
            if end != id {
                kept.push(row);
            } else {
                count = count + 1;
                proof {
                    gone = gone.push(row.pair());
                }
            }
            i = i + 1;
        }
        proof {
            assert(pairs.subrange(0, i as int) =~= pairs);
            gone.unique_seq_to_set();
            assert(gone.to_set() =~= Set::new(
                |p: (i64, i64)| pairs.to_set().contains(p) && end_of(p, by_content) == id,
            ));
            assert(link_pairs(kept@).to_set() =~= Set::new(
                |p: (i64, i64)| pairs.to_set().contains(p) && end_of(p, by_content) != id,
            ));
        }
        core::mem::swap(&mut self.stored, &mut kept);
        count
    }
}

impl ContentTagInterface for MemoryContentTagRepository {
    closed spec fn rows(&self) -> Set<(i64, i64)> {
        link_pairs(self.stored@).to_set()
    }

    open spec fn reliable() -> bool {
        true
    }

    /// Refuses a pair that the table holds already, and then changes
    /// nothing; fails in no other case.
    fn create(&mut self, entity: &ContentTagEntity) -> (r: Result<ContentTagEntity, StorageError>)
        ensures
            r is Err <==> old(self).rows().contains(entity.pair()),
            r matches Err(e) ==> e is Constraint && final(self).rows() == old(self).rows(),
    {
        proof {
            use_type_invariant(&*self);
        }
        if self.position(entity.content_id, entity.tag_id).is_some() {
            return Err(StorageError::Constraint("the association exists".to_owned()));
        }
        let row = *entity;
        proof {
            let pairs = link_pairs(self.stored@);
            lemma_push_fresh(pairs, row.pair());
            assert(link_pairs(self.stored@.push(row)) =~= pairs.push(row.pair()));
            pairs.lemma_push_to_set_commute(row.pair());
        }
        let mut stored: Vec<ContentTagEntity> = Vec::new();
        core::mem::swap(&mut self.stored, &mut stored);
        stored.push(row);
        core::mem::swap(&mut self.stored, &mut stored);
        Ok(row)
    }

    fn select(&mut self, content_id: i64, tag_id: i64) -> (r: Result<
        Option<ContentTagEntity>,
        StorageError,
    >) {
        match self.position(content_id, tag_id) {
            Some(i) => Ok(Some(self.stored[i])),
            None => Ok(None),
        }
    }

    fn delete(&mut self, entity: &ContentTagEntity) -> (r: Result<u64, StorageError>) {
        proof {
            use_type_invariant(&*self);
        }
        match self.position(entity.content_id, entity.tag_id) {
            Some(i) => {
                proof {
                    let pairs = link_pairs(self.stored@);
                    let rest = link_pairs(self.stored@.remove(i as int));
                    assert(rest =~= pairs.remove(i as int));
                    assert forall|a: int, b: int|
                        0 <= a < rest.len() && 0 <= b < rest.len() && a != b implies rest[a]
                        != rest[b] by {
                        let a2 = if a < i { a } else { a + 1 };
                        let b2 = if b < i { b } else { b + 1 };
                        assert(rest[a] == pairs[a2] && rest[b] == pairs[b2]);
                    }
                    let fewer = pairs.to_set().remove(entity.pair());
                    assert forall|p: (i64, i64)| rest.to_set().contains(p) <==> fewer.contains(p) by {
                        if rest.contains(p) {
                            let k = choose|k: int| 0 <= k < rest.len() && rest[k] == p;
                            let k2 = if k < i { k } else { k + 1 };
                            assert(pairs[k2] == p);
                            assert(pairs[k2] != pairs[i as int]);
                        }
                        if pairs.contains(p) && p != entity.pair() {
                            let k = choose|k: int| 0 <= k < pairs.len() && pairs[k] == p;
                            let k2 = if k < i { k } else { k - 1 };
                            assert(rest[k2] == p);
                        }
                    }
                    assert(rest.to_set() =~= fewer);
                }
                let mut stored: Vec<ContentTagEntity> = Vec::new();
                core::mem::swap(&mut self.stored, &mut stored);
                let _ = stored.remove(i);
                core::mem::swap(&mut self.stored, &mut stored);
                Ok(1)
            },
            None => {
                assert(self.rows().remove(entity.pair()) =~= self.rows());
                Ok(0)
            },
        }
    }

    fn delete_by_content_id(&mut self, content_id: i64) -> (r: Result<u64, StorageError>) {
        let ghost before = self.rows();
        let count = self.delete_by(true, content_id);
        proof {
            assert(self.rows() =~= links_without_content(before, content_id));
            assert(links_of_content(before, content_id) =~= Set::new(
                |p: (i64, i64)| before.contains(p) && end_of(p, true) == content_id,
            ));
        }
        Ok(count)
    }

    fn delete_by_tag_id(&mut self, tag_id: i64) -> (r: Result<u64, StorageError>) {
        let ghost before = self.rows();
        let count = self.delete_by(false, tag_id);
        proof {
            assert(self.rows() =~= links_without_tag(before, tag_id));
            assert(links_of_tag(before, tag_id) =~= Set::new(
                |p: (i64, i64)| before.contains(p) && end_of(p, false) == tag_id,
            ));
        }
        Ok(count)
    }
}

} // verus!
