//! The content table in memory.

use vstd::prelude::*;
use crate::entity::{ContentEntity, ContentRow};
use crate::error::StorageError;
use crate::interface::ContentInterface;
use crate::memory::keyed::{
    ascending,
    dense,
    keyed,
    lemma_keyed_at,
    lemma_keyed_insert,
    lemma_keyed_lacks,
    lemma_keyed_remove,
    lemma_keyed_update,
    lemma_no_key_left,
    lemma_smallest_free,
    positive,
};
use crate::keys::{are_free, keys_free, smallest_free};

verus! {

/// Key and columns of each content item, in order.
pub open spec fn content_pairs(s: Seq<ContentEntity>) -> Seq<(i64, ContentRow)> {
    Seq::new(s.len(), |i: int| (s[i].id, s[i].row()))
}

/// The content rows, in ascending order of their keys. A new row gets the
/// smallest key from 1 upwards that no row has.
pub struct MemoryContentRepository {
    stored: Vec<ContentEntity>,
}

impl MemoryContentRepository {
    #[verifier::type_invariant]
    spec fn well_formed(&self) -> bool {
        ascending(content_pairs(self.stored@)) && positive(content_pairs(self.stored@))
    }

    /// A table without rows.
    pub fn new() -> (repo: Self)
        ensures
            repo.rows() == Map::<i64, ContentRow>::empty(),
    {
        let repo = Self { stored: Vec::new() };
        assert(repo.rows() =~= Map::<i64, ContentRow>::empty());
        repo
    }

    /// A table with the same rows.
    pub fn duplicate(&self) -> (copy: Self)
        ensures
            copy.rows() == self.rows(),
    {
        proof {
            use_type_invariant(self);
        }
        let mut stored: Vec<ContentEntity> = Vec::new();
        let mut i: usize = 0;
        while i < self.stored.len()
            invariant
                i <= self.stored.len(),
                stored.len() == i,
                forall|k: int| 0 <= k < i ==> stored[k] == self.stored[k],
            decreases self.stored.len() - i,
        {
            let row = &self.stored[i];
            stored.push(row.duplicate());
            i = i + 1;
        }
        assert(stored@ =~= self.stored@);
        Self { stored }
    }

    /// Where the row with key `id` stands, if there is one.
    fn position(&self, id: i64) -> (at: Option<usize>)
        ensures
            at matches Some(i) ==> i < self.stored.len() && self.stored[i as int].id == id,
            at is None ==> !self.rows().dom().contains(id),
    {
        let mut i: usize = 0;
        while i < self.stored.len()
            invariant
                i <= self.stored.len(),
                forall|k: int| 0 <= k < i ==> (#[trigger] self.stored[k]).id != id,
            decreases self.stored.len() - i,
        {
            if self.stored[i].id == id {
                return Some(i);
            }
            i = i + 1;
        }
        proof {
            let pairs = content_pairs(self.stored@);
            assert forall|k: int| 0 <= k < pairs.len() implies (#[trigger] pairs[k]).0 != id by {
                assert(self.stored[k].id != id);
            }
            lemma_keyed_lacks(pairs, id);
        }
        None
    }

    /// How many rows from the first on have the keys 1, 2, 3 and so on: the
    /// place where a new row goes.
    fn gap(&self) -> (at: usize)
        ensures
            at <= self.stored.len(),
            at <= i64::MAX,
            dense(content_pairs(self.stored@), at as int),
            at < self.stored.len() ==> self.stored[at as int].id != at + 1,
    {
        proof {
            use_type_invariant(self);
        }
        let mut i: usize = 0;
        while i < self.stored.len()
            invariant
                i <= self.stored.len(),
                i <= i64::MAX,
                positive(content_pairs(self.stored@)),
                dense(content_pairs(self.stored@), i as int),
            decreases self.stored.len() - i,
        {
            assert(1 <= content_pairs(self.stored@)[i as int].0);
            if self.stored[i].id as u64 != i as u64 + 1 {
                return i;
            }
            i = i + 1;
        }
        i
    }
}

impl ContentInterface for MemoryContentRepository {
    closed spec fn rows(&self) -> Map<i64, ContentRow> {
        keyed(content_pairs(self.stored@))
    }

    open spec fn reliable() -> bool {
        true
    }

    /// The new row gets the smallest key that is free. Fails where none is,
    /// and then changes nothing; fails in no other case.
    fn create(&mut self, entity: &ContentEntity) -> (r: Result<ContentEntity, StorageError>)
        ensures
            r is Ok <==> keys_free(old(self).rows().dom(), 1),
            r matches Ok(created) ==> smallest_free(old(self).rows().dom(), created.id),
            r is Err ==> final(self).rows() == old(self).rows(),
    {
        proof {
            use_type_invariant(&*self);
        }
        let ghost pairs = content_pairs(self.stored@);
        let at = self.gap();
        if at as u64 >= i64::MAX as u64 {
            proof {
                lemma_no_key_left(pairs, at as int);
            }
            return Err(StorageError::Exhausted);
        }
        let id = at as i64 + 1;
        let row = entity.with_id(id);
        let created = row.duplicate();
        proof {
            lemma_smallest_free(pairs, at as int);
            lemma_keyed_insert(pairs, at as int, (id, row.row()));
            assert(content_pairs(self.stored@.insert(at as int, row)) =~= pairs.insert(
                at as int,
                (id, row.row()),
            ));
            assert(keys_free(self.rows().dom(), 1)) by {
                assert(are_free(self.rows().dom(), set![id], 1));
            }
        }
        let mut stored: Vec<ContentEntity> = Vec::new();
        core::mem::swap(&mut self.stored, &mut stored);
        stored.insert(at, row);
        core::mem::swap(&mut self.stored, &mut stored);
        Ok(created)
    }

    fn select(&mut self, id: i64) -> (r: Result<Option<ContentEntity>, StorageError>) {
        proof {
            use_type_invariant(&*self);
        }
        match self.position(id) {
            Some(i) => {
                let row = &self.stored[i];
                proof {
                    lemma_keyed_at(content_pairs(self.stored@), i as int);
                }
                Ok(Some(row.duplicate()))
            },
            None => Ok(None),
        }
    }

    fn update(&mut self, entity: &ContentEntity) -> (r: Result<
        Option<ContentEntity>,
        StorageError,
    >) {
        proof {
            use_type_invariant(&*self);
        }
        match self.position(entity.id) {
            Some(i) => {
                let id = entity.id;
                let row = entity.duplicate();
                let updated = entity.duplicate();
                proof {
                    let pairs = content_pairs(self.stored@);
                    lemma_keyed_at(pairs, i as int);
                    lemma_keyed_update(pairs, i as int, (id, row.row()));
                    assert(content_pairs(self.stored@.update(i as int, row)) =~= pairs.update(
                        i as int,
                        (id, row.row()),
                    ));
                }
                let mut stored: Vec<ContentEntity> = Vec::new();
                core::mem::swap(&mut self.stored, &mut stored);
                stored[i] = row;
                core::mem::swap(&mut self.stored, &mut stored);
                Ok(Some(updated))
            },
            None => Ok(None),
        }
    }

    fn delete(&mut self, id: i64) -> (r: Result<u64, StorageError>) {
        proof {
            use_type_invariant(&*self);
        }
        match self.position(id) {
            Some(i) => {
                proof {
                    let pairs = content_pairs(self.stored@);
                    lemma_keyed_at(pairs, i as int);
                    lemma_keyed_remove(pairs, i as int);
                    assert(content_pairs(self.stored@.remove(i as int)) =~= pairs.remove(i as int));
                }
                let mut stored: Vec<ContentEntity> = Vec::new();
                core::mem::swap(&mut self.stored, &mut stored);
                let _ = stored.remove(i);
                core::mem::swap(&mut self.stored, &mut stored);
                Ok(1)
            },
            None => {
                assert(self.rows().remove(id) =~= self.rows());
                Ok(0)
            },
        }
    }
}

} // verus!
