//! The tag table in memory.

use vstd::prelude::*;
use crate::entity::TagEntity;
use crate::error::StorageError;
use crate::interface::TagInterface;
use crate::memory::keyed::{
    ascending,
    dense,
    has_key,
    keyed,
    lemma_keyed_at,
    lemma_keyed_insert,
    lemma_keyed_lacks,
    lemma_keyed_remove,
    lemma_keyed_update,
    lemma_no_key_left,
    lemma_smallest_free,
    place,
    positive,
};
use crate::keys::{are_free, keys_free, smallest_free};
use crate::tables::label_in;

verus! {

/// Key and label of each tag, in order.
pub open spec fn tag_pairs(s: Seq<TagEntity>) -> Seq<(i64, Seq<char>)> {
    Seq::new(s.len(), |i: int| (s[i].id, s[i].label@))
}

/// The tag rows, in ascending order of their keys. A new row gets the
/// smallest key from 1 upwards that no row has. Two rows may carry one label:
/// the table does not forbid it.
pub struct MemoryTagRepository {
    stored: Vec<TagEntity>,
}

impl MemoryTagRepository {
    #[verifier::type_invariant]
    spec fn well_formed(&self) -> bool {
        ascending(tag_pairs(self.stored@)) && positive(tag_pairs(self.stored@))
    }

    /// A table without rows.
    pub fn new() -> (repo: Self)
        ensures
            repo.rows() == Map::<i64, Seq<char>>::empty(),
    {
        let repo = Self { stored: Vec::new() };
        assert(repo.rows() =~= Map::<i64, Seq<char>>::empty());
        repo
    }

    /// A table with the same rows.
    pub fn duplicate(&self) -> (copy: Self)
        ensures
            copy.rows() == self.rows(),
    {
        proof {
            use_type_invariant(self);
        }
        let mut stored: Vec<TagEntity> = Vec::new();
        let mut i: usize = 0;
        while i < self.stored.len()
            invariant
                i <= self.stored.len(),
                stored.len() == i,
                forall|k: int| 0 <= k < i ==> stored[k] == self.stored[k],
            decreases self.stored.len() - i,
        {
            let row = &self.stored[i];
            stored.push(row.duplicate());
            i = i + 1;
        }
        assert(stored@ =~= self.stored@);
        Self { stored }
    }

    /// Where the row with key `id` stands, if there is one.
    fn position(&self, id: i64) -> (at: Option<usize>)
        ensures
            at matches Some(i) ==> i < self.stored.len() && self.stored[i as int].id == id,
            at is None ==> !self.rows().dom().contains(id),
    {
        let mut i: usize = 0;
        while i < self.stored.len()
            invariant
                i <= self.stored.len(),
                forall|k: int| 0 <= k < i ==> (#[trigger] self.stored[k]).id != id,
            decreases self.stored.len() - i,
        {
            if self.stored[i].id == id {
                return Some(i);
            }
            i = i + 1;
        }
        proof {
            let pairs = tag_pairs(self.stored@);
            assert forall|k: int| 0 <= k < pairs.len() implies (#[trigger] pairs[k]).0 != id by {
                assert(self.stored[k].id != id);
            }
            lemma_keyed_lacks(pairs, id);
        }
        None
    }

    /// How many rows from the first on have the keys 1, 2, 3 and so on: the
    /// place where a new row goes.
    fn gap(&self) -> (at: usize)
        ensures
            at <= self.stored.len(),
            at <= i64::MAX,
            dense(tag_pairs(self.stored@), at as int),
            at < self.stored.len() ==> self.stored[at as int].id != at + 1,
    {
        proof {
            use_type_invariant(self);
        }
        let mut i: usize = 0;
        while i < self.stored.len()
            invariant
                i <= self.stored.len(),
                i <= i64::MAX,
                positive(tag_pairs(self.stored@)),
                dense(tag_pairs(self.stored@), i as int),
            decreases self.stored.len() - i,
        {
            assert(1 <= tag_pairs(self.stored@)[i as int].0);
            if self.stored[i].id as u64 != i as u64 + 1 {
                return i;
            }
            i = i + 1;
        }
        i
    }
}

impl TagInterface for MemoryTagRepository {
    closed spec fn rows(&self) -> Map<i64, Seq<char>> {
        keyed(tag_pairs(self.stored@))
    }

    open spec fn reliable() -> bool {
        true
    }

    /// The new row gets the smallest key that is free. Fails where none is,
    /// and then changes nothing; fails in no other case.
    fn create(&mut self, entity: &TagEntity) -> (r: Result<TagEntity, StorageError>)
        ensures
            r is Ok <==> keys_free(old(self).rows().dom(), 1),
            r matches Ok(created) ==> smallest_free(old(self).rows().dom(), created.id),
            r is Err ==> final(self).rows() == old(self).rows(),
    {
        proof {
            use_type_invariant(&*self);
        }
        let ghost pairs = tag_pairs(self.stored@);
        let at = self.gap();
        if at as u64 >= i64::MAX as u64 {
            proof {
                lemma_no_key_left(pairs, at as int);
            }
            return Err(StorageError::Exhausted);
        }
        let id = at as i64 + 1;
        let row = entity.with_id(id);
        let created = row.duplicate();
        proof {
            lemma_smallest_free(pairs, at as int);
            lemma_keyed_insert(pairs, at as int, (id, row.label@));
            assert(tag_pairs(self.stored@.insert(at as int, row)) =~= pairs.insert(
                at as int,
                (id, row.label@),
            ));
            assert(keys_free(self.rows().dom(), 1)) by {
                assert(are_free(self.rows().dom(), set![id], 1));
            }
        }
        let mut stored: Vec<TagEntity> = Vec::new();
        core::mem::swap(&mut self.stored, &mut stored);
        stored.insert(at, row);
        core::mem::swap(&mut self.stored, &mut stored);
        Ok(created)
    }

    fn select(&mut self, id: i64) -> (r: Result<Option<TagEntity>, StorageError>) {
        proof {
            use_type_invariant(&*self);
        }
        match self.position(id) {
            Some(i) => {
                let row = &self.stored[i];
                proof {
                    lemma_keyed_at(tag_pairs(self.stored@), i as int);
                }
                Ok(Some(row.duplicate()))
            },
            None => Ok(None),
        }
    }

    fn update(&mut self, entity: &TagEntity) -> (r: Result<Option<TagEntity>, StorageError>) {
        proof {
            use_type_invariant(&*self);
        }
        match self.position(entity.id) {
            Some(i) => {
                let id = entity.id;
                let row = entity.duplicate();
                let updated = entity.duplicate();
                proof {
                    let pairs = tag_pairs(self.stored@);
                    lemma_keyed_at(pairs, i as int);
                    lemma_keyed_update(pairs, i as int, (id, row.label@));
                    assert(tag_pairs(self.stored@.update(i as int, row)) =~= pairs.update(
                        i as int,
                        (id, row.label@),
                    ));
                }
                let mut stored: Vec<TagEntity> = Vec::new();
                core::mem::swap(&mut self.stored, &mut stored);
                stored[i] = row;
                core::mem::swap(&mut self.stored, &mut stored);
                Ok(Some(updated))
            },
            None => Ok(None),
        }
    }

    fn delete(&mut self, id: i64) -> (r: Result<u64, StorageError>) {
        proof {
            use_type_invariant(&*self);
        }
        match self.position(id) {
            Some(i) => {
                proof {
                    let pairs = tag_pairs(self.stored@);
                    lemma_keyed_at(pairs, i as int);
                    lemma_keyed_remove(pairs, i as int);
                    assert(tag_pairs(self.stored@.remove(i as int)) =~= pairs.remove(i as int));
                }
                let mut stored: Vec<TagEntity> = Vec::new();
                core::mem::swap(&mut self.stored, &mut stored);
                let _ = stored.remove(i);
                core::mem::swap(&mut self.stored, &mut stored);
                Ok(1)
            },
            None => {
                assert(self.rows().remove(id) =~= self.rows());
                Ok(0)
            },
        }
    }

    /// Where several rows carry `label`, the one with the lowest key is
    /// returned.
    fn find_by_label(&mut self, label: &str) -> (r: Result<Option<TagEntity>, StorageError>)
        ensures
            r matches Ok(Some(found)) ==> forall|id: i64|
                old(self).rows().contains_pair(id, label@) ==> found.id <= id,
    {
        proof {
            use_type_invariant(&*self);
        }
        let ghost pairs = tag_pairs(self.stored@);
        let wanted = label.to_owned();
        let mut i: usize = 0;
        while i < self.stored.len()
            invariant
                i <= self.stored.len(),
                wanted@ == label@,
                pairs == tag_pairs(self.stored@),
                ascending(pairs),
                forall|k: int| 0 <= k < i ==> (#[trigger] self.stored[k]).label@ != label@,
            decreases self.stored.len() - i,
        {
            let row = &self.stored[i];
            if row.label == wanted {
                proof {
                    lemma_keyed_at(pairs, i as int);
                    assert forall|id: i64| self.rows().contains_pair(id, label@) implies row.id
                        <= id by {
                        let k = place(pairs, id);
                        lemma_keyed_at(pairs, k);
                        assert(self.stored[k].label@ == label@);
                        if k > i {
                            assert(pairs[i as int].0 < pairs[k].0);
                        }
                    }
                }
                return Ok(Some(row.duplicate()));
            }
            i = i + 1;
        }
        proof {
            if label_in(self.rows(), label@) {
                let id = choose|id: i64| #[trigger] self.rows().contains_pair(id, label@);
                assert(has_key(pairs, id));
                let k = place(pairs, id);
                assert(self.stored[k].label@ != label@);
            }
        }
        Ok(None)
    }
}

} // verus!
