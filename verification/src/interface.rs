//! The contracts between the orchestration and a storage engine: one
//! repository per table, the unit of work that scopes them to a transaction,
//! and the provider that begins units of work.
//!
//! An engine implements these traits. What a method's `ensures` says is what
//! the orchestration relies on, so an engine has to make it true. The rows
//! that the contracts speak of are what the engine says its tables hold:
//! `rows` and `tables` have no meaning of their own here, and an engine that
//! does not define them has said nothing.
//!
//! Every operation may fail, and the contracts say what holds where it did
//! not. An engine that calls itself `reliable` promises more: it fails for no
//! reason but the two that the tables themselves give, a table without a key
//! left for a new row and an association that exists already. Keys are given
//! from 1 upwards.

use vstd::prelude::*;
use crate::entity::{ContentEntity, ContentRow, ContentTagEntity, TagEntity};
use crate::error::StorageError;
use crate::keys::keys_free;
use crate::tables::{
    Tables,
    label_in,
    links_of_content,
    links_of_tag,
    links_without_content,
    links_without_tag,
};

verus! {

/// The content table inside a transaction.
pub trait ContentInterface {
    /// The rows of the table, by key.
    open spec fn rows(&self) -> Map<i64, ContentRow> {
        arbitrary()
    }

    /// Whether the engine fails for no reason but the want of a key for a new
    /// row.
    open spec fn reliable() -> bool {
        false
    }

    /// Inserts a row holding the title and body of `entity` under a key that
    /// no row has, and returns the row as persisted. The `id` of `entity` is
    /// ignored.
    fn create(&mut self, entity: &ContentEntity) -> (r: Result<ContentEntity, StorageError>)
        ensures
            Self::reliable() ==> r is Ok || r == Err::<ContentEntity, StorageError>(
                StorageError::Exhausted,
            ),
            Self::reliable() && keys_free(old(self).rows().dom(), 1) ==> r is Ok,
            r matches Ok(created) ==> {
                &&& !old(self).rows().dom().contains(created.id)
                &&& created.row() == entity.row()
                &&& final(self).rows() == old(self).rows().insert(created.id, entity.row())
            },
    ;

    /// Reads the row with key `id`, if there is one.
    fn select(&mut self, id: i64) -> (r: Result<Option<ContentEntity>, StorageError>)
        ensures
            Self::reliable() ==> r is Ok,
            final(self).rows() == old(self).rows(),
            r matches Ok(Some(found)) ==> found.id == id && old(self).rows().contains_pair(
                id,
                found.row(),
            ),
            r matches Ok(None) ==> !old(self).rows().dom().contains(id),
    ;

    /// Overwrites title and body of the row with the key of `entity`, and
    /// returns the row as persisted; returns `None`, and changes nothing,
    /// where there is no such row.
    fn update(&mut self, entity: &ContentEntity) -> (r: Result<Option<ContentEntity>, StorageError>)
        ensures
            Self::reliable() ==> r is Ok,
            r matches Ok(Some(updated)) ==> {
                &&& old(self).rows().dom().contains(entity.id)
                &&& updated.id == entity.id
                &&& updated.row() == entity.row()
                &&& final(self).rows() == old(self).rows().insert(entity.id, entity.row())
            },
            r matches Ok(None) ==> {
                &&& !old(self).rows().dom().contains(entity.id)
                &&& final(self).rows() == old(self).rows()
            },
    ;

    /// Deletes the row with key `id` and returns how many rows went: 1 where
    /// it existed, 0 where it did not.
    fn delete(&mut self, id: i64) -> (r: Result<u64, StorageError>)
        ensures
            Self::reliable() ==> r is Ok,
            r matches Ok(count) ==> {
                &&& final(self).rows() == old(self).rows().remove(id)
                &&& count == (if old(self).rows().dom().contains(id) { 1u64 } else { 0u64 })
            },
    ;
}

/// The tag table inside a transaction.
pub trait TagInterface {
    /// The labels of the rows of the table, by key.
    open spec fn rows(&self) -> Map<i64, Seq<char>> {
        arbitrary()
    }

    /// Whether the engine fails for no reason but the want of a key for a new
    /// row.
    open spec fn reliable() -> bool {
        false
    }

    /// Inserts a row holding the label of `entity` under a key that no row
    /// has, and returns the row as persisted. The `id` of `entity` is ignored.
    /// Nothing here keeps two rows from carrying one label: callers look the
    /// label up first.
    fn create(&mut self, entity: &TagEntity) -> (r: Result<TagEntity, StorageError>)
        ensures
            Self::reliable() ==> r is Ok || r == Err::<TagEntity, StorageError>(
                StorageError::Exhausted,
            ),
            Self::reliable() && keys_free(old(self).rows().dom(), 1) ==> r is Ok,
            r matches Ok(created) ==> {
                &&& !old(self).rows().dom().contains(created.id)
                &&& created.label@ == entity.label@
                &&& final(self).rows() == old(self).rows().insert(created.id, entity.label@)
            },
    ;

    /// Reads the row with key `id`, if there is one.
    fn select(&mut self, id: i64) -> (r: Result<Option<TagEntity>, StorageError>)
        ensures
            Self::reliable() ==> r is Ok,
            final(self).rows() == old(self).rows(),
            r matches Ok(Some(found)) ==> found.id == id && old(self).rows().contains_pair(
                id,
                found.label@,
            ),
            r matches Ok(None) ==> !old(self).rows().dom().contains(id),
    ;

    /// Overwrites the label of the row with the key of `entity`, and returns
    /// the row as persisted; returns `None`, and changes nothing, where there
    /// is no such row.
    fn update(&mut self, entity: &TagEntity) -> (r: Result<Option<TagEntity>, StorageError>)
        ensures
            Self::reliable() ==> r is Ok,
            r matches Ok(Some(updated)) ==> {
                &&& old(self).rows().dom().contains(entity.id)
                &&& updated.id == entity.id
                &&& updated.label@ == entity.label@
                &&& final(self).rows() == old(self).rows().insert(entity.id, entity.label@)
            },
            r matches Ok(None) ==> {
                &&& !old(self).rows().dom().contains(entity.id)
                &&& final(self).rows() == old(self).rows()
            },
    ;

    /// Deletes the row with key `id` and returns how many rows went: 1 where
    /// it existed, 0 where it did not.
    fn delete(&mut self, id: i64) -> (r: Result<u64, StorageError>)
        ensures
            Self::reliable() ==> r is Ok,
            r matches Ok(count) ==> {
                &&& final(self).rows() == old(self).rows().remove(id)
                &&& count == (if old(self).rows().dom().contains(id) { 1u64 } else { 0u64 })
            },
    ;

    /// Reads a row that carries `label`, if there is one.
    fn find_by_label(&mut self, label: &str) -> (r: Result<Option<TagEntity>, StorageError>)
        ensures
            Self::reliable() ==> r is Ok,
            final(self).rows() == old(self).rows(),
            r matches Ok(Some(found)) ==> found.label@ == label@ && old(self).rows().contains_pair(
                found.id,
                label@,
            ),
            r matches Ok(None) ==> !label_in(old(self).rows(), label@),
    ;
}

/// The association table inside a transaction.
pub trait ContentTagInterface {
    /// The pairs `(content_id, tag_id)` of the table.
    open spec fn rows(&self) -> Set<(i64, i64)> {
        arbitrary()
    }

    /// Whether the engine fails for no reason but an association that exists
    /// already.
    open spec fn reliable() -> bool {
        false
    }

    /// Inserts the pair of `entity` and returns the row as persisted. An
    /// engine may refuse a pair that the table holds already: callers look
    /// the pair up first.
    fn create(&mut self, entity: &ContentTagEntity) -> (r: Result<ContentTagEntity, StorageError>)
        ensures
            Self::reliable() && !old(self).rows().contains(entity.pair()) ==> r is Ok,
            r matches Ok(created) ==> {
                &&& created == *entity
                &&& final(self).rows() == old(self).rows().insert(entity.pair())
            },
    ;

    /// Reads the row of the pair `(content_id, tag_id)`, if there is one.
    fn select(&mut self, content_id: i64, tag_id: i64) -> (r: Result<
        Option<ContentTagEntity>,
        StorageError,
    >)
        ensures
            Self::reliable() ==> r is Ok,
            final(self).rows() == old(self).rows(),
            r matches Ok(Some(found)) ==> found.pair() == (content_id, tag_id) && old(
                self,
            ).rows().contains((content_id, tag_id)),
            r matches Ok(None) ==> !old(self).rows().contains((content_id, tag_id)),
    ;

    /// Deletes the pair of `entity` and returns how many rows went: 1 where
    /// the table held it, 0 where it did not.
    fn delete(&mut self, entity: &ContentTagEntity) -> (r: Result<u64, StorageError>)
        ensures
            Self::reliable() ==> r is Ok,
            r matches Ok(count) ==> {
                &&& final(self).rows() == old(self).rows().remove(entity.pair())
                &&& count == (if old(self).rows().contains(entity.pair()) { 1u64 } else { 0u64 })
            },
    ;

    /// Deletes every pair of the content item `content_id` and returns how
    /// many rows went.
    fn delete_by_content_id(&mut self, content_id: i64) -> (r: Result<u64, StorageError>)
        ensures
            Self::reliable() ==> r is Ok,
            r matches Ok(count) ==> {
                &&& final(self).rows() == links_without_content(old(self).rows(), content_id)
                &&& count == links_of_content(old(self).rows(), content_id).len()
            },
    ;

    /// Deletes every pair of the tag `tag_id` and returns how many rows went.
    fn delete_by_tag_id(&mut self, tag_id: i64) -> (r: Result<u64, StorageError>)
        ensures
            Self::reliable() ==> r is Ok,
            r matches Ok(count) ==> {
                &&& final(self).rows() == links_without_tag(old(self).rows(), tag_id)
                &&& count == links_of_tag(old(self).rows(), tag_id).len()
            },
    ;
}

/// Storage whose durable state is the three tables.
pub trait Storage {
    /// The rows that a transaction begun now would see.
    open spec fn tables(&self) -> Tables {
        arbitrary()
    }
}

/// One transaction against storage of type `P`. Writes made through its
/// repositories stay its own until `commit` makes them durable; a unit of work
/// that is dropped without `commit` leaves the storage as it was.
pub trait UnitOfWorkInterface<P: Storage>: Sized {
    type Contents: ContentInterface;

    type Tags: TagInterface;

    type ContentTags: ContentTagInterface;

    /// The tables as this transaction sees them now.
    open spec fn tables(&self) -> Tables {
        arbitrary()
    }

    /// Whether `commit` and `rollback` never fail.
    open spec fn reliable() -> bool {
        false
    }

    /// Makes the rows of this transaction the durable state of `provider`, and
    /// ends the transaction. Where that fails, the durable state stays as it
    /// was.
    fn commit(self, provider: &mut P) -> (r: Result<(), StorageError>)
        ensures
            Self::reliable() ==> r is Ok,
            r is Ok ==> final(provider).tables() == self.tables(),
            r is Err ==> final(provider).tables() == old(provider).tables(),
    ;

    /// Ends the transaction and discards its writes.
    fn rollback(self, provider: &mut P) -> (r: Result<(), StorageError>)
        ensures
            Self::reliable() ==> r is Ok,
            final(provider).tables() == old(provider).tables(),
    ;

    /// The content table of this transaction. What is written through the
    /// handle is written to the transaction; the other tables stay.
    fn content(&mut self) -> (repo: &mut Self::Contents)
        ensures
            repo.rows() == old(self).tables().contents,
            final(self).tables() == (Tables {
                contents: final(repo).rows(),
                ..old(self).tables()
            }),
    ;

    /// The tag table of this transaction. What is written through the handle
    /// is written to the transaction; the other tables stay.
    fn tag(&mut self) -> (repo: &mut Self::Tags)
        ensures
            repo.rows() == old(self).tables().tags,
            final(self).tables() == (Tables { tags: final(repo).rows(), ..old(self).tables() }),
    ;

    /// The association table of this transaction. What is written through the
    /// handle is written to the transaction; the other tables stay.
    fn content_tag(&mut self) -> (repo: &mut Self::ContentTags)
        ensures
            repo.rows() == old(self).tables().links,
            final(self).tables() == (Tables { links: final(repo).rows(), ..old(self).tables() }),
    ;
}

/// Begins units of work. One provider serves every operation; it keeps no
/// state of any one of them.
pub trait RepositoryProviderInterface: Storage + Sized {
    type Work: UnitOfWorkInterface<Self>;

    /// Whether `begin` never fails.
    open spec fn reliable() -> bool {
        false
    }

    /// Opens a transaction on the durable state.
    fn begin(&self) -> (r: Result<Self::Work, StorageError>)
        ensures
            Self::reliable() ==> r is Ok,
            r matches Ok(work) ==> work.tables() == self.tables(),
    ;
}

/// The whole engine behind `P` is reliable: the provider, its units of work
/// and their three repositories.
pub open spec fn engine_reliable<P: RepositoryProviderInterface>() -> bool {
    &&& P::reliable()
    &&& <P::Work as UnitOfWorkInterface<P>>::reliable()
    &&& <<P::Work as UnitOfWorkInterface<P>>::Contents as ContentInterface>::reliable()
    &&& <<P::Work as UnitOfWorkInterface<P>>::Tags as TagInterface>::reliable()
    &&& <<P::Work as UnitOfWorkInterface<P>>::ContentTags as ContentTagInterface>::reliable()
}

} // verus!
